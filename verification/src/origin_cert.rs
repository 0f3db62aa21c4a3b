//! Where the certificate of a logged in `cloudflared` is looked for.

use vstd::prelude::*;

verus! {

/// The index of the first candidate that exists, for a list that says of each
/// candidate whether it does.
pub fn find_existing_origin_cert(present: &Vec<bool>) -> (r: Option<usize>)
    ensures
        match r {
            Some(i) => i < present.len() && present@[i as int] && (forall|k: int|
                0 <= k < i ==> !#[trigger] present@[k]),
            None => forall|k: int| 0 <= k < present.len() ==> !#[trigger] present@[k],
        },
{
    let mut i: usize = 0;
    while i < present.len()
        invariant
            i <= present.len(),
            forall|k: int| 0 <= k < i ==> !#[trigger] present@[k],
        decreases present.len() - i,
    {
        if present[i] {
            return Some(i);
        }
        i = i + 1;
    }
    None
}

/// The directories below the home directory in which an origin certificate may
/// lie; without a home directory there is none.
pub open spec fn cert_dirs(has_home: bool) -> Seq<Seq<char>> {
    if has_home {
        seq![".cloudflared"@, ".cloudflare-warp"@, "cloudflare-warp"@]
    } else {
        Seq::empty()
    }
}

/// The directories below the home directory in which the file `cert.pem` is
/// looked for, in this order.
pub fn candidate_origin_cert_paths(has_home: bool) -> (r: Vec<&'static str>)
    ensures
        r@.map_values(|s: &'static str| s@) == cert_dirs(has_home),
{
    let mut r: Vec<&'static str> = Vec::new();
    if has_home {
        r.push(".cloudflared");
        r.push(".cloudflare-warp");
        r.push("cloudflare-warp");
    }
    assert(r@.map_values(|s: &'static str| s@) =~= cert_dirs(has_home));
    r
}

} // verus!
