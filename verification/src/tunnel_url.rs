//! The public address that `cloudflared` prints for a quick tunnel.

use vstd::prelude::*;

use crate::text;

verus! {

/// The first index from `i` on at which `s` has white space, or its length.
pub open spec fn white_from(s: Seq<char>, i: int) -> int
    decreases s.len() - i,
{
    if i >= s.len() {
        s.len() as int
    } else if text::is_white(s[i]) {
        i
    } else {
        white_from(s, i + 1)
    }
}

/// `s` without the slashes at its end.
pub open spec fn without_slashes(s: Seq<char>) -> Seq<char>
    decreases s.len(),
{
    if s.len() > 0 && s.last() == '/' {
        without_slashes(s.drop_last())
    } else {
        s
    }
}

/// The first word of `line` that starts with `https://` inside it, cut at the
/// white space behind it.
pub open spec fn first_link(line: Seq<char>) -> Option<Seq<char>> {
    match text::position(line, "https://"@) {
        Some(i) => Some(line.subrange(i, white_from(line, i))),
        None => None,
    }
}

/// The tunnel address in `line`: its first link, where that names
/// `trycloudflare.com`, without the slashes at its end.
pub open spec fn tunnel_url(line: Seq<char>) -> Option<Seq<char>> {
    match first_link(line) {
        Some(link) => if text::has(link, "trycloudflare.com"@) {
            Some(without_slashes(link))
        } else {
            None
        },
        None => None,
    }
}

proof fn lemma_white_from(s: Seq<char>, i: int)
    requires
        0 <= i <= s.len(),
    ensures
        i <= white_from(s, i) <= s.len(),
        forall|k: int| i <= k < white_from(s, i) ==> !text::is_white(#[trigger] s[k]),
        white_from(s, i) < s.len() ==> text::is_white(s[white_from(s, i)]),
    decreases s.len() - i,
{
    if i < s.len() && !text::is_white(s[i]) {
        lemma_white_from(s, i + 1);
    }
}

proof fn lemma_without_slashes(s: Seq<char>)
    ensures
        without_slashes(s).len() <= s.len(),
        without_slashes(s) == s.take(without_slashes(s).len() as int),
        forall|k: int| without_slashes(s).len() <= k < s.len() ==> #[trigger] s[k] == '/',
        without_slashes(s).len() > 0 ==> without_slashes(s).last() != '/',
    decreases s.len(),
{
    if s.len() > 0 && s.last() == '/' {
        let rest = s.drop_last();
        lemma_without_slashes(rest);
        assert forall|k: int| without_slashes(s).len() <= k < s.len() implies #[trigger] s[k]
            == '/' by {
            if k < rest.len() {
                assert(s[k] == rest[k]);
            }
        }
        assert(without_slashes(s) =~= s.take(without_slashes(s).len() as int));
    } else {
        assert(s.take(s.len() as int) =~= s);
    }
}

/// A tunnel address starts with `https://`, names `trycloudflare.com`, holds no
/// white space and does not end with a slash.
pub proof fn lemma_tunnel_url_shape(line: Seq<char>)
    ensures
        tunnel_url(line) matches Some(url) ==> {
            &&& text::begins(url, "https://"@)
            &&& text::has(url, "trycloudflare.com"@)
            &&& url.last() != '/'
            &&& forall|k: int| 0 <= k < url.len() ==> !text::is_white(#[trigger] url[k])
        },
{
    if let Some(url) = tunnel_url(line) {
        let scheme = "https://"@;
        let host = "trycloudflare.com"@;
        reveal_strlit("https://");
        reveal_strlit("trycloudflare.com");
        text::lemma_position(line, scheme);
        let i = text::position(line, scheme).unwrap();
        lemma_white_from(line, i);
        let end = white_from(line, i);
        let link = line.subrange(i, end);
        lemma_without_slashes(link);
        assert(line.subrange(i, i + 8) == scheme);
        assert forall|k: int| 0 <= k < 8 implies line[i + k] == scheme[k] by {
            assert(line.subrange(i, i + 8)[k] == scheme[k]);
        }
        if end < i + 8 {
            assert(text::is_white(line[end]));
            assert(line[i + (end - i)] == scheme[end - i]);
        }
        let j = choose|j: int| text::matches_at(link, host, j);
        assert forall|k: int| 0 <= k < 17 implies link[j + k] == host[k] by {
            assert(link.subrange(j, j + 17)[k] == host[k]);
        }
        if j < 8 {
            // The host holds neither a colon nor a slash, so it stands behind the scheme.
            if j <= 5 {
                assert(link[5] == ':');
                assert(link[j + (5 - j)] == host[5 - j]);
            } else {
                assert(link[7] == '/');
                assert(link[j + (7 - j)] == host[7 - j]);
            }
        }
        assert(link[j + 16] == host[16]);
        assert(url.len() >= j + 17);
        assert(url.subrange(0, 8) =~= scheme);
        assert(url.subrange(j, j + 17) =~= host);
        assert(text::matches_at(url, host, j));
        assert forall|k: int| 0 <= k < url.len() implies !text::is_white(#[trigger] url[k]) by {
            assert(url[k] == line[i + k]);
        }
    }
}

/// The tunnel address in a `cloudflared` line.
pub fn extract_trycloudflare_url(line: &str) -> (r: Option<String>)
    ensures
        text::view_option(r) == tunnel_url(line@),
{
    let v = text::chars_of(line);
    let n: usize = v.len();
    proof {
        text::lemma_position(line@, "https://"@);
    }
    let start: usize = match text::find(&v, "https://") {
        Some(i) => i,
        None => return None,
    };
    let mut end: usize = start;
    while end < n && !text::is_whitespace(v[end])
        invariant
            n == v.len(),
            start <= end <= n,
            white_from(v@, start as int) == white_from(v@, end as int),
        decreases n - end,
    {
        end = end + 1;
    }
    let url = line.substring_char(start, end);
    if !text::contains(url, "trycloudflare.com") {
        return None;
    }
    let mut to: usize = end;
    assert(url@.take(end - start) =~= url@);
    while start < to && v[to - 1] == '/'
        invariant
            start <= to <= end <= v.len(),
            url@ == v@.subrange(start as int, end as int),
            without_slashes(url@) == without_slashes(url@.take(to - start)),
        decreases to,
    {
        assert(url@.take(to - start).drop_last() =~= url@.take(to - 1 - start));
        to = to - 1;
    }
    assert(url@.take(to - start) =~= line@.subrange(start as int, to as int));
    Some(line.substring_char(start, to).to_owned())
}

/// The first address in a line is the one that is taken: it goes up to the next
/// white space and loses the slashes at its end. It is a tunnel address exactly
/// where it names `trycloudflare.com`.
pub proof fn lemma_first_address_is_taken(
    ahead: Seq<char>,
    address: Seq<char>,
    slashes: Seq<char>,
    behind: Seq<char>,
)
    requires
        text::begins(address + slashes, "https://"@),
        forall|i: int|
            0 <= i < ahead.len() ==> !text::matches_at(
                ahead + (address + slashes) + behind,
                "https://"@,
                i,
            ),
        forall|i: int| 0 <= i < address.len() ==> !text::is_white(#[trigger] address[i]),
        forall|i: int| 0 <= i < slashes.len() ==> #[trigger] slashes[i] == '/',
        behind.len() > 0 ==> text::is_white(behind[0]),
        address.len() > 0 && address.last() != '/',
    ensures
        ({
            let line = ahead + (address + slashes) + behind;
            if text::has(address + slashes, "trycloudflare.com"@) {
                tunnel_url(line) == Some(address)
            } else {
                tunnel_url(line) is None
            }
        }),
{
    let link = address + slashes;
    let line = ahead + link + behind;
    let from = ahead.len() as int;
    let to = from + link.len();
    let scheme = "https://"@;
    assert(line.subrange(from, to) =~= link);
    text::lemma_matches_at(link, scheme, 0);
    text::lemma_matches_at(line, scheme, from);
    assert forall|k: int| 0 <= k < scheme.len() implies line[from + k] == #[trigger] scheme[k] by {
        assert(link[0 + k] == scheme[k]);
        assert(line[from + k] == link[k]);
    }
    assert(text::matches_at(line, scheme, from));
    text::lemma_position(line, scheme);
    let i = text::position(line, scheme).unwrap();
    assert(i == from);
    lemma_white_from(line, from);
    let end = white_from(line, from);
    if end < to {
        assert(line[end] == link[end - from]);
        if end - from < address.len() {
            assert(!text::is_white(address[end - from]));
        } else {
            assert(slashes[end - from - address.len()] == '/');
        }
    }
    if end > to {
        assert(line[to] == behind[0]);
    }
    assert(end == to);
    lemma_without_slashes(link);
    let kept = without_slashes(link);
    if kept.len() < address.len() {
        assert(link[address.len() - 1] == address.last());
    }
    if kept.len() > address.len() {
        assert(kept.last() == link[kept.len() - 1]);
        assert(link[kept.len() - 1] == slashes[kept.len() - 1 - address.len()]);
    }
    assert(kept =~= address);
}

/// A line without an address has no tunnel address, and one that has a tunnel
/// address holds it.
pub proof fn lemma_tunnel_url_is_in_the_line(line: Seq<char>)
    ensures
        !text::has(line, "https://"@) ==> tunnel_url(line) is None,
        tunnel_url(line) matches Some(url) ==> text::has(line, url),
{
    text::lemma_position(line, "https://"@);
    if let Some(url) = tunnel_url(line) {
        let i = text::position(line, "https://"@).unwrap();
        reveal_strlit("https://");
        lemma_white_from(line, i);
        let link = line.subrange(i, white_from(line, i));
        lemma_without_slashes(link);
        assert(line.subrange(i, i + url.len()) =~= url);
        assert(text::matches_at(line, url, i));
    }
}

} // verus!
