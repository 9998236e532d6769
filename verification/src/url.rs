//! Shareable URLs: a base URL, the segment `/share/`, and a file name.

use vstd::prelude::*;
use vstd::string::*;

verus! {

/// The path segment that stands between the base URL and the file name.
pub open spec fn share_segment() -> Seq<char> {
    seq!['/', 's', 'h', 'a', 'r', 'e', '/']
}

/// The shareable URL of `name` under `base`: `{base}/share/{name}`, with the
/// name taken as it is.
pub open spec fn spec_file_url(base: Seq<char>, name: Seq<char>) -> Seq<char> {
    base + share_segment() + name
}

/// The literal `/share/` is the share segment.
pub proof fn lemma_share_literal()
    ensures
        "/share/"@ == share_segment(),
{
    reveal_strlit("/share/");
    assert("/share/"@ =~= share_segment());
}

/// Builds the shareable URL of a file. The name is neither escaped nor
/// checked: it is the name of a file that is known to exist.
pub fn build_file_url(base_url: &str, file_name: &str) -> (url: String)
    ensures
        url@ == spec_file_url(base_url@, file_name@),
{
    proof {
        lemma_share_literal();
    }
    let mut url = String::from_str(base_url);
    url.append("/share/");
    url.append(file_name);
    url
}

/// Under one base URL, two names have the same shareable URL only if they are
/// the same name.
pub proof fn lemma_file_url_injective(base: Seq<char>, a: Seq<char>, b: Seq<char>)
    ensures
        spec_file_url(base, a) == spec_file_url(base, b) <==> a == b,
{
    let head = base + share_segment();
    if spec_file_url(base, a) == spec_file_url(base, b) {
        let ua = head + a;
        let ub = head + b;
        assert(ua.subrange(head.len() as int, ua.len() as int) =~= a);
        assert(ub.subrange(head.len() as int, ub.len() as int) =~= b);
    }
}

/// Every shareable URL begins with its base URL and the share segment and
/// ends with the file name.
pub proof fn lemma_file_url_shape(base: Seq<char>, name: Seq<char>)
    ensures
        spec_file_url(base, name).len() == base.len() + 7 + name.len(),
        spec_file_url(base, name).take(base.len() as int) == base,
        spec_file_url(base, name).skip(base.len() as int).take(7) == share_segment(),
        spec_file_url(base, name).skip(base.len() as int + 7) == name,
{
    let u = spec_file_url(base, name);
    assert(u.take(base.len() as int) =~= base);
    assert(u.skip(base.len() as int).take(7) =~= share_segment());
    assert(u.skip(base.len() as int + 7) =~= name);
}

} // verus!
