use vstd::prelude::*;

use crate::text::{rfind_char, spec_rfind};

verus! {

/// The content types the server can announce. Anything without a recognized
/// video extension is served as `video/mp4`.
#[derive(Clone, Copy, Debug, PartialEq, Eq, Structural)]
pub enum MimeType {
    Mp4,
    QuickTime,
    MsVideo,
}

impl MimeType {
    pub open spec fn spec_str(self) -> Seq<char> {
        match self {
            MimeType::Mp4 => "video/mp4"@,
            MimeType::QuickTime => "video/quicktime"@,
            MimeType::MsVideo => "video/x-msvideo"@,
        }
    }

    /// The header value for this content type.
    pub fn as_str(&self) -> (r: &'static str)
        ensures
            r@ == self.spec_str(),
    {
        match self {
            MimeType::Mp4 => "video/mp4",
            MimeType::QuickTime => "video/quicktime",
            MimeType::MsVideo => "video/x-msvideo",
        }
    }
}

/// Where the file name of a path starts: right after the last separator,
/// `/` or `\`, whichever comes later, or at the front when there is none.
pub open spec fn spec_name_start(path: Seq<char>) -> int {
    let after_slash = match spec_rfind(path, '/') {
        Some(i) => i + 1,
        None => 0,
    };
    let after_backslash = match spec_rfind(path, '\\') {
        Some(i) => i + 1,
        None => 0,
    };
    if after_slash >= after_backslash {
        after_slash
    } else {
        after_backslash
    }
}

/// The file name of a path: everything after the last separator.
pub open spec fn spec_file_name(path: Seq<char>) -> Seq<char> {
    path.skip(spec_name_start(path))
}

/// The extension of a path: what follows the last `.` of the file name,
/// unless that dot starts the name (a hidden file) or there is no dot.
pub open spec fn spec_extension(path: Seq<char>) -> Option<Seq<char>> {
    let name = spec_file_name(path);
    match spec_rfind(name, '.') {
        Some(i) => if i > 0 {
            Some(name.skip(i + 1))
        } else {
            None
        },
        None => None,
    }
}

/// Case-insensitive character match against a lowercase pattern character.
pub open spec fn char_eq_ci(a: char, b: char) -> bool {
    a == b || (65 <= a as int && a as int <= 90 && a as int + 32 == b as int)
}

/// Case-insensitive match of `a` against the lowercase pattern `b`.
pub open spec fn seq_eq_ci(a: Seq<char>, b: Seq<char>) -> bool {
    a.len() == b.len() && forall|i: int| 0 <= i < a.len() ==> char_eq_ci(a[i], #[trigger] b[i])
}

/// The content type for a path: `mp4`, `mov` and `avi` extensions map to
/// their video types, compared case-insensitively; everything else, including
/// a missing extension, maps to `video/mp4`.
pub open spec fn spec_mime_of(path: Seq<char>) -> MimeType {
    match spec_extension(path) {
        Some(e) => if seq_eq_ci(e, "mp4"@) {
            MimeType::Mp4
        } else if seq_eq_ci(e, "mov"@) {
            MimeType::QuickTime
        } else if seq_eq_ci(e, "avi"@) {
            MimeType::MsVideo
        } else {
            MimeType::Mp4
        },
        None => MimeType::Mp4,
    }
}

/// Case-insensitive comparison against a lowercase pattern.
fn str_eq_ci(s: &str, pat: &str) -> (r: bool)
    ensures
        r == seq_eq_ci(s@, pat@),
{
    let n: usize = s.unicode_len();
    let m: usize = pat.unicode_len();
    if n != m {
        return false;
    }
    let mut i: usize = 0;
    while i < n
        invariant
            0 <= i <= n,
            n == s@.len(),
            n == pat@.len(),
            forall|j: int| 0 <= j < i ==> char_eq_ci(s@[j], #[trigger] pat@[j]),
        decreases n - i,
    {
        let ca: char = s.get_char(i);
        let cb: char = pat.get_char(i);
        let a: u32 = ca as u32;
        let b: u32 = cb as u32;
        if !(ca == cb || (65 <= a && a <= 90 && a + 32 == b)) {
            proof {
                assert(!char_eq_ci(s@[i as int], pat@[i as int]));
                assert(!seq_eq_ci(s@, pat@));
            }
            return false;
        }
        i = i + 1;
    }
    true
}

/// Determines the content type of `path` from its extension.
pub fn mime_for_path(path: &str) -> (m: MimeType)
    ensures
        m == spec_mime_of(path@),
{
    let n: usize = path.unicode_len();
    let after_slash: usize = match rfind_char(path, '/') {
        Some(i) => i + 1,
        None => 0,
    };
    let after_backslash: usize = match rfind_char(path, '\\') {
        Some(i) => i + 1,
        None => 0,
    };
    let name_start: usize = if after_slash >= after_backslash {
        after_slash
    } else {
        after_backslash
    };
    let name: &str = path.substring_char(name_start, n);
    proof {
        assert(name@ =~= spec_file_name(path@));
    }
    let m: usize = name.unicode_len();
    match rfind_char(name, '.') {
        Some(i) => {
            if i > 0 {
                let ext: &str = name.substring_char(i + 1, m);
                proof {
                    assert(ext@ =~= name@.skip(i as int + 1));
                    assert(spec_extension(path@) == Some(name@.skip(i as int + 1)));
                }
                if str_eq_ci(ext, "mp4") {
                    MimeType::Mp4
                } else if str_eq_ci(ext, "mov") {
                    MimeType::QuickTime
                } else if str_eq_ci(ext, "avi") {
                    MimeType::MsVideo
                } else {
                    MimeType::Mp4
                }
            } else {
                MimeType::Mp4
            }
        },
        None => MimeType::Mp4,
    }
}

} // verus!
