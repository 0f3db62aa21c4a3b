//! A danmaku comment: what the server accepts and what the overlay makes of it.

use vstd::prelude::*;

use crate::ieee::Single;
use crate::text;

verus! {

/// The longest text, in characters.
pub const MAX_TEXT_CHARS: usize = 120;

/// The slowest speed, in pixels per second.
pub const MIN_SPEED: u16 = 40;

/// The fastest speed, in pixels per second.
pub const MAX_SPEED: u16 = 240;

/// The speed where none is given, in pixels per second.
pub const DEFAULT_SPEED: u16 = 90;

/// The status of a request that was refused.
pub const BAD_REQUEST: u16 = 400;

/// A comment as it is sent in.
#[derive(Debug)]
pub struct DanmakuInput {
    pub text: String,
    pub color: Option<String>,
    pub speed: Option<Single>,
}

/// A comment as it is handed on to the screens.
#[derive(Debug)]
pub struct DanmakuMessage {
    pub text: String,
    pub color: String,
    pub speed: Single,
}

/// What a sender is told.
#[derive(Debug)]
pub struct ApiResponse {
    pub ok: bool,
    pub message: String,
}

/// A comment that was accepted, and what its sender is told.
#[derive(Debug)]
pub struct Accepted {
    pub message: DanmakuMessage,
    pub response: ApiResponse,
}

/// What the sender of a comment that was refused is told, and with which status.
#[derive(Debug)]
pub struct Refused {
    pub status: u16,
    pub response: ApiResponse,
}

pub open spec fn is_hex(c: char) -> bool {
    '0' <= c <= '9' || 'a' <= c <= 'f' || 'A' <= c <= 'F'
}

/// The value of a hexadecimal digit.
pub open spec fn hex_value(c: char) -> int {
    if '0' <= c <= '9' {
        c as int - '0' as int
    } else if 'a' <= c <= 'f' {
        c as int - 'a' as int + 10
    } else {
        c as int - 'A' as int + 10
    }
}

/// `s` has the form `#RRGGBB`.
pub open spec fn is_color(s: Seq<char>) -> bool {
    &&& s.len() == 7
    &&& s[0] == '#'
    &&& forall|i: int| 1 <= i < 7 ==> is_hex(#[trigger] s[i])
}

/// The color that `s` names, white where it names none.
pub open spec fn normal_color(s: Seq<char>) -> Seq<char> {
    let t = text::trimmed(s);
    if is_color(t) {
        t
    } else {
        "#ffffff"@
    }
}

/// The byte that the hexadecimal digits at `i` and behind it denote.
pub open spec fn byte_at(s: Seq<char>, i: int) -> int {
    hex_value(s[i]) * 16 + hex_value(s[i + 1])
}

/// Red, green, blue and opacity of the color `s`; opaque white where `s` is
/// none.
pub open spec fn color_bytes(s: Seq<char>) -> Seq<u8> {
    if is_color(s) {
        seq![byte_at(s, 1) as u8, byte_at(s, 3) as u8, byte_at(s, 5) as u8, 255]
    } else {
        seq![255, 255, 255, 255]
    }
}

/// `v` brought into the range of speeds.
pub open spec fn clamped_speed(v: Single, r: Single) -> bool {
    if v.nan() {
        r == v
    } else if v.value() < Single::units(MIN_SPEED as int) {
        !r.nan() && r.value() == Single::units(MIN_SPEED as int)
    } else if v.value() > Single::units(MAX_SPEED as int) {
        !r.nan() && r.value() == Single::units(MAX_SPEED as int)
    } else {
        r == v
    }
}

fn is_hex_digit(c: char) -> (r: bool)
    ensures
        r == is_hex(c),
{
    ('0' <= c && c <= '9') || ('a' <= c && c <= 'f') || ('A' <= c && c <= 'F')
}

/// Whether `v` has the form `#RRGGBB`.
fn names_color(v: &Vec<char>) -> (r: bool)
    ensures
        r == is_color(v@),
{
    if v.len() != 7 || v[0] != '#' {
        return false;
    }
    let mut i: usize = 1;
    while i < 7
        invariant
            v.len() == 7,
            1 <= i <= 7,
            forall|k: int| 1 <= k < i ==> is_hex(#[trigger] v@[k]),
        decreases 7 - i,
    {
        if !is_hex_digit(v[i]) {
            return false;
        }
        i = i + 1;
    }
    true
}

/// The color that `input` names, white where it names none.
pub fn normalize_color(input: String) -> (r: String)
    ensures
        r@ == normal_color(input@),
{
    let s = text::trim(input.as_str());
    let v = text::chars_of(s);
    if names_color(&v) {
        s.to_owned()
    } else {
        "#ffffff".to_owned()
    }
}

fn hex_digit_value(c: char) -> (r: u8)
    requires
        is_hex(c),
    ensures
        r == hex_value(c),
        r < 16,
{
    if '0' <= c && c <= '9' {
        c as u8 - 48
    } else if 'a' <= c && c <= 'f' {
        c as u8 - 97 + 10
    } else {
        c as u8 - 65 + 10
    }
}

/// The bytes of `egui`'s opaque color of the given red, green and blue:
/// `Color32::from_rgb` keeps the three as they are and sets the opacity to 255,
/// and `to_array` lists the four.
#[verifier::external_body]
fn opaque_color(red: u8, green: u8, blue: u8) -> (r: [u8; 4])
    ensures
        r@ == seq![red, green, blue, 255u8],
{
    eframe::egui::Color32::from_rgb(red, green, blue).to_array()
}

/// Red, green, blue and opacity of the color that `input` names; opaque white
/// where it names none.
pub fn parse_color_or_white(input: &str) -> (r: [u8; 4])
    ensures
        r@ == color_bytes(input@),
{
    let v = text::chars_of(input);
    if names_color(&v) {
        let red = hex_digit_value(v[1]) * 16 + hex_digit_value(v[2]);
        let green = hex_digit_value(v[3]) * 16 + hex_digit_value(v[4]);
        let blue = hex_digit_value(v[5]) * 16 + hex_digit_value(v[6]);
        opaque_color(red, green, blue)
    } else {
        opaque_color(255, 255, 255)
    }
}

/// `speed` brought into the range of speeds.
pub fn clamp_speed(speed: Single) -> (r: Single)
    ensures
        clamped_speed(speed, r),
{
    speed.clamp_to(Single::whole(MIN_SPEED), Single::whole(MAX_SPEED))
}

/// The message for the screens that comes of an accepted comment.
pub open spec fn accepted_as(payload: DanmakuInput, m: DanmakuMessage) -> bool {
    &&& m.text@ == text::trimmed(payload.text@)
    &&& m.color@ == normal_color(
        match payload.color {
            Some(c) => c@,
            None => "#ffffff"@,
        },
    )
    &&& match payload.speed {
        Some(v) => clamped_speed(v, m.speed),
        None => !m.speed.nan() && m.speed.value() == Single::units(DEFAULT_SPEED as int),
    }
}

/// Why a comment with this text is refused.
pub open spec fn refusal(said: Seq<char>) -> Option<Seq<char>> {
    let t = text::trimmed(said);
    if t.len() == 0 {
        Some("text cannot be empty"@)
    } else if t.len() > MAX_TEXT_CHARS {
        Some("text too long (max 120 chars)"@)
    } else {
        None
    }
}

fn refuse(why: &str) -> (r: Refused)
    ensures
        r.status == BAD_REQUEST,
        !r.response.ok,
        r.response.message@ == why@,
{
    Refused {
        status: BAD_REQUEST,
        response: ApiResponse { ok: false, message: why.to_owned() },
    }
}

/// Accepts or refuses a comment.
pub fn post_danmaku(payload: DanmakuInput) -> (r: Result<Accepted, Refused>)
    ensures
        match r {
            Ok(a) => {
                &&& refusal(payload.text@) is None
                &&& accepted_as(payload, a.message)
                &&& a.response.ok
                &&& a.response.message@ == "sent"@
            },
            Err(e) => {
                &&& refusal(payload.text@) == Some(e.response.message@)
                &&& e.status == BAD_REQUEST
                &&& !e.response.ok
            },
        },
{
    let said = text::trim(payload.text.as_str());
    let n = said.unicode_len();
    if n == 0 {
        return Err(refuse("text cannot be empty"));
    }
    if n > MAX_TEXT_CHARS {
        return Err(refuse("text too long (max 120 chars)"));
    }
    let text = said.to_owned();
    let color = normalize_color(
        match payload.color {
            Some(c) => c,
            None => "#ffffff".to_owned(),
        },
    );
    let speed = match payload.speed {
        Some(v) => clamp_speed(v),
        None => Single::whole(DEFAULT_SPEED),
    };
    Ok(
        Accepted {
            message: DanmakuMessage { text, color, speed },
            response: ApiResponse { ok: true, message: "sent".to_owned() },
        },
    )
}

proof fn lemma_hex_is_not_white(s: Seq<char>)
    requires
        is_color(s),
    ensures
        text::trimmed(s) == s,
{
    assert(!text::is_white(s[0]));
    assert(is_hex(s[6]));
    assert(text::skip_white(s) == s);
    assert(s.last() == s[6]);
    assert(text::drop_white(s) == s);
}

proof fn lemma_white_is_a_color()
    ensures
        is_color("#ffffff"@),
        color_bytes("#ffffff"@) == seq![255u8, 255u8, 255u8, 255u8],
{
    reveal_strlit("#ffffff");
    assert(color_bytes("#ffffff"@) =~= seq![255u8, 255u8, 255u8, 255u8]);
}

/// A normalized color always has the form `#RRGGBB`, normalizing it again
/// changes nothing, and it is shown as the color that the sender named, or as
/// white where the sender named none.
pub proof fn lemma_normal_color(s: Seq<char>)
    ensures
        is_color(normal_color(s)),
        normal_color(normal_color(s)) == normal_color(s),
        color_bytes(normal_color(s)) == color_bytes(text::trimmed(s)),
{
    lemma_white_is_a_color();
    lemma_hex_is_not_white(normal_color(s));
}

/// Every color is opaque.
pub proof fn lemma_colors_are_opaque(s: Seq<char>)
    ensures
        color_bytes(s).len() == 4,
        color_bytes(s)[3] == 255,
{
}

/// A speed in the range of speeds is left as it is, so bringing a speed into
/// the range twice is bringing it there once.
pub proof fn lemma_speed_clamped_once(v: Single, once: Single, twice: Single)
    requires
        clamped_speed(v, once),
        clamped_speed(once, twice),
    ensures
        twice == once,
        !v.nan() ==> Single::units(MIN_SPEED as int) <= once.value() <= Single::units(
            MAX_SPEED as int,
        ),
{
    vstd::arithmetic::power2::lemma_pow2_pos(149);
}

/// What the server hands on is shown as it was handed on: its text is neither
/// blank nor too long and has no white space at its ends, its color is one, and
/// its speed stays the same when the overlay brings it into the range of speeds.
pub proof fn lemma_accepted_is_shown(payload: DanmakuInput, m: DanmakuMessage, shown: Single)
    requires
        refusal(payload.text@) is None,
        accepted_as(payload, m),
        clamped_speed(m.speed, shown),
    ensures
        0 < text::trimmed(m.text@).len() <= MAX_TEXT_CHARS,
        text::trimmed(m.text@) == m.text@,
        is_color(m.color@),
        shown == m.speed,
{
    text::lemma_trimmed_idempotent(payload.text@);
    vstd::arithmetic::power2::lemma_pow2_pos(149);
    match payload.color {
        Some(c) => lemma_normal_color(c@),
        None => lemma_normal_color("#ffffff"@),
    }
}

/// A color that has the form `#RRGGBB` once the white space around it is taken
/// off is kept character by character. White is what is taken where no color was
/// sent, or none of that form.
pub proof fn lemma_sender_color_is_kept(payload: DanmakuInput, m: DanmakuMessage)
    requires
        accepted_as(payload, m),
    ensures
        match payload.color {
            Some(c) => {
                let t = text::trimmed(c@);
                let formed = t.len() == 7 && t[0] == '#' && forall|i: int|
                    1 <= i < 7 ==> ('0' <= #[trigger] t[i] <= '9' || 'a' <= t[i] <= 'f' || 'A'
                        <= t[i] <= 'F');
                &&& formed ==> m.color@ == t && color_bytes(m.color@) == color_bytes(t)
                &&& !formed ==> m.color@ == "#ffffff"@
            },
            None => m.color@ == "#ffffff"@,
        },
{
    lemma_white_is_a_color();
    lemma_hex_is_not_white("#ffffff"@);
    if let Some(c) = payload.color {
        let t = text::trimmed(c@);
        if t.len() == 7 && t[0] == '#' && (forall|i: int|
            1 <= i < 7 ==> ('0' <= #[trigger] t[i] <= '9' || 'a' <= t[i] <= 'f' || 'A' <= t[i]
                <= 'F')) {
            assert(is_color(t));
        }
        if is_color(t) {
            assert forall|i: int| 1 <= i < 7 implies ('0' <= #[trigger] t[i] <= '9' || 'a' <= t[i]
                <= 'f' || 'A' <= t[i] <= 'F') by {
                assert(is_hex(t[i]));
            }
        }
    }
}

/// The text of an accepted comment is what was sent without the white space at
/// its ends, and its speed is the one that was sent where that is from 40 to
/// 240, the nearer end of that range where it is not, and 90 where none was
/// sent.
pub proof fn lemma_sender_text_and_speed_are_kept(payload: DanmakuInput, m: DanmakuMessage)
    requires
        accepted_as(payload, m),
    ensures
        m.text@ == text::trimmed(payload.text@),
        match payload.speed {
            Some(v) => {
                &&& v.nan() ==> m.speed == v
                &&& !v.nan() && Single::units(40) <= v.value() <= Single::units(240) ==> m.speed
                    == v
                &&& !v.nan() && v.value() < Single::units(40) ==> !m.speed.nan()
                    && m.speed.value() == Single::units(40)
                &&& !v.nan() && v.value() > Single::units(240) ==> !m.speed.nan()
                    && m.speed.value() == Single::units(240)
            },
            None => !m.speed.nan() && m.speed.value() == Single::units(90),
        },
{
    vstd::arithmetic::power2::lemma_pow2_pos(149);
}

/// What becomes of the text, of the color and of the speed does not depend on
/// the other two.
pub proof fn lemma_parts_of_a_comment_are_independent(
    p: DanmakuInput,
    q: DanmakuInput,
    m: DanmakuMessage,
    n: DanmakuMessage,
)
    requires
        accepted_as(p, m),
        accepted_as(q, n),
    ensures
        p.text@ == q.text@ ==> m.text@ == n.text@,
        text::view_option(p.color) == text::view_option(q.color) ==> m.color@ == n.color@,
        p.speed == q.speed && p.speed is Some ==> m.speed.value() == n.speed.value(),
{
}

/// A comment is refused exactly where its text, without the white space at its
/// ends, is empty or has more than 120 characters, and each with its reason.
pub proof fn lemma_refusal(said: Seq<char>)
    ensures
        refusal(said) is None <==> 1 <= text::trimmed(said).len() <= 120,
        text::trimmed(said).len() == 0 ==> refusal(said) == Some("text cannot be empty"@),
        text::trimmed(said).len() > 120 ==> refusal(said) == Some("text too long (max 120 chars)"@),
{
}

/// White space around a text or a color makes no difference.
pub proof fn lemma_white_space_around_does_not_matter(a: Seq<char>, b: Seq<char>)
    requires
        text::trimmed(a) == text::trimmed(b),
    ensures
        refusal(a) == refusal(b),
        normal_color(a) == normal_color(b),
{
}

/// The digits 0 to 9 stand for themselves, and a to f, small or capital, for 10
/// to 15. Nothing else is a digit of a color.
pub proof fn lemma_hex_digits(c: char)
    ensures
        is_hex(c) <==> 48 <= c as int <= 57 || 97 <= c as int <= 102 || 65 <= c as int <= 70,
        48 <= c as int <= 57 ==> hex_value(c) == c as int - 48,
        97 <= c as int <= 102 ==> hex_value(c) == c as int - 87,
        65 <= c as int <= 70 ==> hex_value(c) == c as int - 55,
        is_hex(c) ==> 0 <= hex_value(c) < 16,
{
}

/// The bytes of a color are the ones whose two hexadecimal digits it names, in
/// the order red, green, blue: each byte is 16 times its first digit plus its
/// second one. What is not of the form `#RRGGBB` is white.
pub proof fn lemma_color_bytes(s: Seq<char>)
    ensures
        ({
            let formed = s.len() == 7 && s[0] == '#' && forall|i: int|
                1 <= i < 7 ==> ('0' <= #[trigger] s[i] <= '9' || 'a' <= s[i] <= 'f' || 'A' <= s[i]
                    <= 'F');
            let b = color_bytes(s);
            &&& b.len() == 4 && b[3] == 255
            &&& formed ==> forall|k: int|
                0 <= k < 3 ==> #[trigger] b[k] == 16 * hex_value(s[1 + 2 * k]) + hex_value(
                    s[2 + 2 * k],
                )
            &&& !formed ==> b[0] == 255 && b[1] == 255 && b[2] == 255
        }),
{
    let formed = s.len() == 7 && s[0] == '#' && forall|i: int|
        1 <= i < 7 ==> ('0' <= #[trigger] s[i] <= '9' || 'a' <= s[i] <= 'f' || 'A' <= s[i] <= 'F');
    if formed {
        assert(is_color(s));
        assert(is_hex(s[1]) && is_hex(s[2]) && is_hex(s[3]) && is_hex(s[4]) && is_hex(s[5])
            && is_hex(s[6]));
        let b = color_bytes(s);
        assert forall|k: int| 0 <= k < 3 implies #[trigger] b[k] == 16 * hex_value(s[1 + 2 * k])
            + hex_value(s[2 + 2 * k]) by {
            assert(k == 0 || k == 1 || k == 2);
        }
    } else if is_color(s) {
        assert forall|i: int| 1 <= i < 7 implies ('0' <= #[trigger] s[i] <= '9' || 'a' <= s[i]
            <= 'f' || 'A' <= s[i] <= 'F') by {
            assert(is_hex(s[i]));
        }
    }
}

/// Speeds keep their order in the range of speeds: the faster of two comments is
/// never made the slower one.
pub proof fn lemma_speeds_keep_their_order(v: Single, w: Single, r: Single, t: Single)
    requires
        !v.nan(),
        !w.nan(),
        v.value() <= w.value(),
        clamped_speed(v, r),
        clamped_speed(w, t),
    ensures
        Single::units(40) <= r.value() <= t.value() <= Single::units(240),
        Single::units(40) <= v.value() <= Single::units(240) ==> r == v,
        v.value() < Single::units(40) ==> r.value() == Single::units(40),
        v.value() > Single::units(240) ==> r.value() == Single::units(240),
{
    vstd::arithmetic::power2::lemma_pow2_pos(149);
}

} // verus!
