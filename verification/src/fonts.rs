//! The fonts that the overlay shows Chinese, Japanese and Korean text in.

use vstd::prelude::*;

use crate::config::Platform;
use crate::decimal;
use crate::text;

verus! {

/// The files that may hold a fitting font, the best one first.
pub open spec fn font_files(platform: Platform) -> Seq<Seq<char>> {
    match platform {
        Platform::Windows => seq![
            "C:/Windows/Fonts/msyh.ttc"@,
            "C:/Windows/Fonts/msyhbd.ttc"@,
            "C:/Windows/Fonts/simhei.ttf"@,
            "C:/Windows/Fonts/simsun.ttc"@,
            "C:/Windows/Fonts/simkai.ttf"@,
        ],
        Platform::MacOs => seq![
            "/System/Library/Fonts/PingFang.ttc"@,
            "/System/Library/Fonts/STHeiti Light.ttc"@,
            "/System/Library/Fonts/STHeiti Medium.ttc"@,
            "/System/Library/Fonts/Hiragino Sans GB.ttc"@,
            "/Library/Fonts/Arial Unicode.ttf"@,
        ],
        Platform::Other => seq![
            "/usr/share/fonts/opentype/noto/NotoSansCJK-Regular.ttc"@,
            "/usr/share/fonts/truetype/noto/NotoSansCJK-Regular.ttc"@,
            "/usr/share/fonts/truetype/wqy/wqy-microhei.ttc"@,
        ],
    }
}

/// The files that may hold a fitting font, the best one first.
pub fn candidate_cjk_font_paths(platform: Platform) -> (r: Vec<&'static str>)
    ensures
        r@.map_values(|s: &'static str| s@) == font_files(platform),
{
    let mut r: Vec<&'static str> = Vec::new();
    match platform {
        Platform::Windows => {
            r.push("C:/Windows/Fonts/msyh.ttc");
            r.push("C:/Windows/Fonts/msyhbd.ttc");
            r.push("C:/Windows/Fonts/simhei.ttf");
            r.push("C:/Windows/Fonts/simsun.ttc");
            r.push("C:/Windows/Fonts/simkai.ttf");
        },
        Platform::MacOs => {
            r.push("/System/Library/Fonts/PingFang.ttc");
            r.push("/System/Library/Fonts/STHeiti Light.ttc");
            r.push("/System/Library/Fonts/STHeiti Medium.ttc");
            r.push("/System/Library/Fonts/Hiragino Sans GB.ttc");
            r.push("/Library/Fonts/Arial Unicode.ttf");
        },
        Platform::Other => {
            r.push("/usr/share/fonts/opentype/noto/NotoSansCJK-Regular.ttc");
            r.push("/usr/share/fonts/truetype/noto/NotoSansCJK-Regular.ttc");
            r.push("/usr/share/fonts/truetype/wqy/wqy-microhei.ttc");
        },
    }
    assert(r@.map_values(|s: &'static str| s@) =~= font_files(platform));
    r
}

/// The name under which the font number `idx` is known.
pub open spec fn font_name(idx: int) -> Seq<char> {
    "cjk_"@ + decimal::decimal(idx)
}

/// The name under which the font number `idx` is known.
pub fn font_key(idx: usize) -> (r: String)
    ensures
        r@ == font_name(idx as int),
{
    let mut r = "cjk_".to_owned();
    decimal::append_u64(&mut r, idx as u64);
    r
}

/// Puts the fonts that were loaded in front of those that a family has. The
/// first one that was loaded comes first.
pub fn prefer_loaded_fonts(family: &mut Vec<String>, loaded: &Vec<String>)
    ensures
        text::view_list(final(family)@) == text::view_list(loaded@) + text::view_list(
            old(family)@,
        ),
{
    let ghost known = text::view_list(family@);
    let ghost all = text::view_list(loaded@);
    let mut i: usize = loaded.len();
    assert(all.skip(i as int) + known =~= known);
    while i > 0
        invariant
            i <= loaded.len(),
            all == text::view_list(loaded@),
            text::view_list(family@) == all.skip(i as int) + known,
        decreases i,
    {
        i = i - 1;
        let ghost before = family@;
        family.insert(0, loaded[i].clone());
        assert(text::view_list(family@) =~= seq![all[i as int]] + text::view_list(before));
        assert(all.skip(i as int) =~= seq![all[i as int]] + all.skip(i + 1));
    }
    assert(all.skip(0) =~= all);
}

/// Fonts have names of their own.
pub proof fn lemma_font_names(a: int, b: int)
    requires
        0 <= a,
        0 <= b,
    ensures
        text::begins(font_name(a), "cjk_"@),
        font_name(a) == font_name(b) ==> a == b,
        font_name(a).skip(4) == decimal::decimal(a),
{
    reveal_strlit("cjk_");
    text::lemma_has(Seq::empty(), "cjk_"@, Seq::empty(), decimal::decimal(a));
    assert(font_name(a).skip(4) =~= decimal::decimal(a));
    assert(font_name(b).skip(4) =~= decimal::decimal(b));
    decimal::lemma_decimal_reads_back(a);
    decimal::lemma_decimal_reads_back(b);
}

/// The fonts that each system is known to have, the best one first: on Windows
/// the regular weight comes ahead of the bold one and the sans serif ones ahead
/// of the others, and elsewhere the system's own font comes first.
pub proof fn lemma_font_files(platform: Platform)
    ensures
        ({
            let f = font_files(platform);
            &&& platform is Windows ==> f.len() == 5 && f[0] == "C:/Windows/Fonts/msyh.ttc"@ && f[1]
                == "C:/Windows/Fonts/msyhbd.ttc"@ && f[2] == "C:/Windows/Fonts/simhei.ttf"@ && f[3]
                == "C:/Windows/Fonts/simsun.ttc"@ && f[4] == "C:/Windows/Fonts/simkai.ttf"@
            &&& platform is MacOs ==> f.len() == 5 && f[0] == "/System/Library/Fonts/PingFang.ttc"@
                && f[1] == "/System/Library/Fonts/STHeiti Light.ttc"@ && f[2]
                == "/System/Library/Fonts/STHeiti Medium.ttc"@ && f[3]
                == "/System/Library/Fonts/Hiragino Sans GB.ttc"@ && f[4]
                == "/Library/Fonts/Arial Unicode.ttf"@
            &&& platform is Other ==> f.len() == 3 && f[0]
                == "/usr/share/fonts/opentype/noto/NotoSansCJK-Regular.ttc"@ && f[1]
                == "/usr/share/fonts/truetype/noto/NotoSansCJK-Regular.ttc"@ && f[2]
                == "/usr/share/fonts/truetype/wqy/wqy-microhei.ttc"@
        }),
{
}

} // verus!
