use vstd::prelude::*;

verus! {

/// What `urlencoding::encode` returns for a string: its percent-encoded form.
pub uninterp spec fn percent_encoded(s: Seq<char>) -> Seq<char>;

/// What `urlencoding::decode` returns for a string: the decoded form, or
/// nothing where the escapes do not decode to well-formed text.
pub uninterp spec fn percent_decoded(s: Seq<char>) -> Option<Seq<char>>;

/// Relies on urlencoding::encode: percent-encodes every byte except ASCII
/// alphanumerics and `-`, `_`, `.`, `~`; urlencoding::decode maps each `%XX`
/// escape back to its byte, so decoding the result recovers the input.
#[verifier::external_body]
pub(crate) fn percent_encode(s: &str) -> (r: String)
    ensures
        r@ == percent_encoded(s@),
        percent_decoded(r@) == Some(s@),
{
    urlencoding::encode(s).into_owned()
}

/// Relies on urlencoding::decode: replaces each `%XX` escape with its byte
/// and reads the result as UTF-8, failing where that is not valid text.
#[verifier::external_body]
pub(crate) fn percent_decode(s: &str) -> (r: Option<String>)
    ensures
        match r {
            Some(d) => percent_decoded(s@) == Some(d@),
            None => percent_decoded(s@) is None,
        },
{
    match urlencoding::decode(s) {
        Ok(d) => Some(d.into_owned()),
        Err(_) => None,
    }
}

/// Where the media server answers: every video URL starts with this.
pub open spec fn spec_video_url_prefix() -> Seq<char> {
    "http://localhost:1421/video?path="@
}

/// The prefix candidate paths are percent-encoded onto.
pub fn video_url_prefix() -> (r: &'static str)
    ensures
        r@ == spec_video_url_prefix(),
{
    "http://localhost:1421/video?path="
}

/// A canonicalized path on some platforms begins with the verbatim marker
/// `\\?\`; a URL must not carry it.
pub open spec fn spec_strip_verbatim(s: Seq<char>) -> Seq<char> {
    if s.len() >= 4 && s[0] == '\\' && s[1] == '\\' && s[2] == '?' && s[3] == '\\' {
        s.skip(4)
    } else {
        s
    }
}

/// Removes a leading `\\?\` verbatim-path marker, leaving any other path as
/// it is.
pub fn strip_verbatim_prefix(path: &str) -> (r: String)
    ensures
        r@ == spec_strip_verbatim(path@),
{
    let n: usize = path.unicode_len();
    if n >= 4 && path.get_char(0) == '\\' && path.get_char(1) == '\\' && path.get_char(2) == '?'
        && path.get_char(3) == '\\' {
        let rest: &str = path.substring_char(4, n);
        proof {
            assert(rest@ =~= path@.skip(4));
        }
        rest.to_owned()
    } else {
        path.to_owned()
    }
}

/// The URL the front end's video element should load for a path: the fixed
/// loopback prefix followed by the percent-encoded path.
pub fn video_url_for_path(path: &str) -> (r: String)
    ensures
        r@ == spec_video_url_prefix() + percent_encoded(path@),
        percent_decoded(percent_encoded(path@)) == Some(path@),
{
    let mut s: String = "http://localhost:1421/video?path=".to_owned();
    let enc = percent_encode(path);
    s.append(enc.as_str());
    s
}

/// Recovers the still-encoded `path` query parameter of a video URL: the part
/// after the fixed prefix, or nothing for a string that does not start with
/// the prefix.
pub fn path_param_of(url: &str) -> (r: Option<String>)
    ensures
        match r {
            Some(q) => url@ == spec_video_url_prefix() + q@,
            None => forall|rest: Seq<char>| url@ != spec_video_url_prefix() + rest,
        },
{
    let prefix: &str = video_url_prefix();
    let plen: usize = prefix.unicode_len();
    let n: usize = url.unicode_len();
    if n < plen {
        proof {
            assert forall|rest: Seq<char>| url@ != spec_video_url_prefix() + rest by {
                assert((spec_video_url_prefix() + rest).len() >= plen);
            }
        }
        return None;
    }
    let mut i: usize = 0;
    while i < plen
        invariant
            0 <= i <= plen,
            plen == spec_video_url_prefix().len(),
            n == url@.len(),
            plen <= n,
            prefix@ == spec_video_url_prefix(),
            forall|j: int| 0 <= j < i ==> url@[j] == spec_video_url_prefix()[j],
        decreases plen - i,
    {
        if url.get_char(i) != prefix.get_char(i) {
            proof {
                assert forall|rest: Seq<char>| url@ != spec_video_url_prefix() + rest by {
                    if url@ == spec_video_url_prefix() + rest {
                        assert((spec_video_url_prefix() + rest)[i as int]
                            == spec_video_url_prefix()[i as int]);
                    }
                }
            }
            return None;
        }
        i = i + 1;
    }
    let q: String = url.substring_char(plen, n).to_owned();
    proof {
        assert(url@ =~= spec_video_url_prefix() + q@);
    }
    Some(q)
}

/// Law: the URL built for a path carries that path exactly. Its `path` query
/// parameter, percent-decoded, is the original path again.
pub fn url_round_trip(path: &str) -> (r: Option<String>)
    ensures
        r matches Some(q) && q@ == path@,
{
    let url = video_url_for_path(path);
    match path_param_of(url.as_str()) {
        None => {
            proof {
                assert(url@ == spec_video_url_prefix() + percent_encoded(path@));
                assert(false);
            }
            None
        },
        Some(q) => {
            proof {
                let p = spec_video_url_prefix();
                let e = percent_encoded(path@);
                assert(url@ == p + q@);
                assert(url@ == p + e);
                assert((p + q@).len() == p.len() + q@.len());
                assert((p + e).len() == p.len() + e.len());
                assert(q@.len() == e.len());
                assert forall|k: int| 0 <= k < q@.len() implies q@[k] == e[k] by {
                    assert(q@[k] == (p + q@)[p.len() + k]);
                    assert(e[k] == (p + e)[p.len() + k]);
                }
                assert(q@ =~= e);
            }
            percent_decode(q.as_str())
        },
    }
}

} // verus!
