use crate::errors::Error;
use vstd::prelude::*;
use vstd::string::StrSliceExecFns;

verus! {

/// The closed set of content categories a file can be classified into.
#[derive(Clone, Copy, Debug, PartialEq, Eq, Structural)]
pub enum FileType {
    Doc,
    Image,
    Video,
    Audio,
}

/// The path with its trailing `/` separators removed.
pub open spec fn strip_slashes(p: Seq<char>) -> Seq<char>
    decreases p.len(),
{
    if p.len() > 0 && p.last() == '/' {
        strip_slashes(p.drop_last())
    } else {
        p
    }
}

/// Everything after the last `/` of a path that does not end in `/`: the
/// whole path if it has no `/` at all.
pub open spec fn last_segment(p: Seq<char>) -> Seq<char>
    decreases p.len(),
{
    if p.len() == 0 {
        p
    } else if p.last() == '/' {
        Seq::empty()
    } else {
        last_segment(p.drop_last()).push(p.last())
    }
}

/// The file name a path stands for: its final segment, with trailing `/`
/// separators ignored, as the platform path routines read it.
pub open spec fn base_name(p: Seq<char>) -> Seq<char> {
    last_segment(strip_slashes(p))
}

/// The extension of a file name: everything after the last `.`, provided
/// that dot is preceded by at least one character (a name that starts with
/// its only dot, or has no dot at all, has no extension).
pub open spec fn ext_of_name(n: Seq<char>) -> Option<Seq<char>>
    decreases n.len(),
{
    if n.len() <= 1 {
        None
    } else if n.last() == '.' {
        Some(Seq::empty())
    } else {
        match ext_of_name(n.drop_last()) {
            None => None,
            Some(e) => Some(e.push(n.last())),
        }
    }
}

/// The extension of a path: the extension of its final segment.
pub open spec fn extension_of(p: Seq<char>) -> Option<Seq<char>> {
    ext_of_name(base_name(p))
}

/// Whether `c` reads as the lowercase character `e` once ASCII uppercase
/// letters are folded to lowercase.
pub open spec fn fold_match(c: char, e: char) -> bool {
    c == e || ((c as u32) >= 65 && (c as u32) <= 90 && (c as u32) + 32 == (e as u32))
}

/// Whether `a` equals the (lowercase) word `b` up to ASCII case folding.
pub open spec fn eq_fold(a: Seq<char>, b: Seq<char>) -> bool {
    a.len() == b.len() && forall|i: int| 0 <= i < a.len() ==> fold_match(a[i], #[trigger] b[i])
}

/// The fixed classification table: a lower-cased extension maps to exactly
/// one content category, and everything else is unsupported.
pub open spec fn file_type_of(p: Seq<char>) -> Option<FileType> {
    match extension_of(p) {
        None => None,
        Some(e) => {
            if eq_fold(e, "doc"@) || eq_fold(e, "docx"@) || eq_fold(e, "pdf"@) || eq_fold(
                e,
                "txt"@,
            ) {
                Some(FileType::Doc)
            } else if eq_fold(e, "jpg"@) || eq_fold(e, "jpeg"@) || eq_fold(e, "png"@) || eq_fold(
                e,
                "gif"@,
            ) {
                Some(FileType::Image)
            } else if eq_fold(e, "mp4"@) || eq_fold(e, "avi"@) || eq_fold(e, "mov"@) {
                Some(FileType::Video)
            } else if eq_fold(e, "mp3"@) || eq_fold(e, "wav"@) || eq_fold(e, "ogg"@) {
                Some(FileType::Audio)
            } else {
                None
            }
        },
    }
}

/// Copies the characters of a path into a vector, for indexed scanning.
pub(crate) fn path_chars(p: &str) -> (r: Vec<char>)
    ensures
        r@ == p@,
{
    let len = p.unicode_len();
    let mut out: Vec<char> = Vec::new();
    let mut i: usize = 0;
    while i < len
        invariant
            len == p@.len(),
            i <= len,
            out@ == p@.take(i as int),
        decreases len - i,
    {
        out.push(p.get_char(i));
        proof {
            assert(out@ =~= p@.take(i + 1));
        }
        i = i + 1;
    }
    proof {
        assert(p@.take(len as int) =~= p@);
    }
    out
}

/// Finds the final path segment, ignoring trailing `/` separators: the
/// segment is `chars[start .. end]` of the returned pair.
pub(crate) fn base_start(chars: &Vec<char>) -> (r: (usize, usize))
    ensures
        r.0 <= r.1 <= chars@.len(),
        base_name(chars@) == chars@.subrange(r.0 as int, r.1 as int),
        forall|k: int| r.0 <= k < r.1 ==> chars@[k] != '/',
{
    let len = chars.len();
    let mut end: usize = len;
    proof {
        assert(chars@.take(len as int) =~= chars@);
    }
    while end > 0 && chars[end - 1] == '/'
        invariant
            end <= len,
            len == chars@.len(),
            strip_slashes(chars@) == strip_slashes(chars@.take(end as int)),
        decreases end,
    {
        proof {
            let t = chars@.take(end as int);
            assert(t.last() == '/');
            assert(t.drop_last() =~= chars@.take(end - 1));
        }
        end = end - 1;
    }
    let ghost s = chars@.take(end as int);
    proof {
        // the remaining prefix does not end in '/', so it is already stripped
        assert(strip_slashes(s) == s);
        assert(base_name(chars@) == last_segment(s));
        assert(s.take(end as int) =~= s);
        assert(last_segment(s) =~= last_segment(s) + chars@.subrange(end as int, end as int));
    }
    let mut j: usize = end;
    while j > 0
        invariant
            j <= end <= len,
            len == chars@.len(),
            s == chars@.take(end as int),
            base_name(chars@) == last_segment(s),
            last_segment(s) == last_segment(chars@.take(j as int)) + chars@.subrange(
                j as int,
                end as int,
            ),
            forall|k: int| j <= k < end ==> chars@[k] != '/',
        decreases j,
    {
        if chars[j - 1] == '/' {
            proof {
                assert(chars@.take(j as int).last() == '/');
                assert(last_segment(chars@.take(j as int)) =~= Seq::<char>::empty());
                assert(last_segment(s) =~= chars@.subrange(j as int, end as int));
            }
            return (j, end);
        }
        proof {
            let t = chars@.take(j as int);
            assert(t.last() == chars@[j - 1]);
            assert(t.drop_last() =~= chars@.take(j - 1));
            assert(last_segment(t) == last_segment(chars@.take(j - 1)).push(chars@[j - 1]));
            assert(last_segment(chars@.take(j - 1)) + chars@.subrange(j - 1, end as int)
                =~= last_segment(chars@.take(j - 1)).push(chars@[j - 1]) + chars@.subrange(
                j as int,
                end as int,
            ));
        }
        j = j - 1;
    }
    proof {
        assert(chars@.take(0) =~= Seq::<char>::empty());
        assert(last_segment(s) =~= chars@.subrange(0, end as int));
    }
    (0, end)
}

/// Finds the start of the extension inside the final segment
/// `chars[base .. end]`: the index right after the last `.` that has at
/// least one character of the segment before it. Returns `None` when the
/// segment has no extension.
fn ext_start(chars: &Vec<char>, base: usize, end: usize) -> (r: Option<usize>)
    requires
        base <= end <= chars@.len(),
    ensures
        r matches Some(j) ==> base < j <= end && ext_of_name(
            chars@.subrange(base as int, end as int),
        ) == Some(chars@.subrange(j as int, end as int)),
        r is None ==> ext_of_name(chars@.subrange(base as int, end as int)) is None,
{
    let len = end;
    let ghost name = chars@.subrange(base as int, len as int);
    let mut j: usize = len;
    proof {
        if let Some(e) = ext_of_name(name) {
            assert(e + chars@.subrange(len as int, len as int) =~= e);
        }
    }
    while j - base > 1
        invariant
            base <= j <= len,
            len == end,
            len <= chars@.len(),
            name == chars@.subrange(base as int, len as int),
            ({
                let head = chars@.subrange(base as int, j as int);
                let tail = chars@.subrange(j as int, len as int);
                ext_of_name(name) == match ext_of_name(head) {
                    None => None::<Seq<char>>,
                    Some(e) => Some(e + tail),
                }
            }),
        decreases j,
    {
        let ghost head = chars@.subrange(base as int, j as int);
        let ghost tail = chars@.subrange(j as int, len as int);
        if chars[j - 1] == '.' {
            proof {
                assert(head.len() > 1);
                assert(head.last() == '.');
                assert(ext_of_name(head) == Some(Seq::<char>::empty()));
                assert(Seq::<char>::empty() + tail =~= tail);
            }
            return Some(j);
        }
        proof {
            assert(head.len() > 1);
            assert(head.last() == chars@[j - 1]);
            assert(head.drop_last() =~= chars@.subrange(base as int, j - 1));
            if let Some(e) = ext_of_name(chars@.subrange(base as int, j - 1)) {
                assert(ext_of_name(head) == Some(e.push(chars@[j - 1])));
                assert(e.push(chars@[j - 1]) + tail =~= e + chars@.subrange(j - 1, len as int));
            }
        }
        j = j - 1;
    }
    proof {
        let head = chars@.subrange(base as int, j as int);
        assert(head.len() <= 1);
        assert(ext_of_name(head) is None);
    }
    None
}

/// Whether the characters of `chars[start .. end]` spell the lowercase
/// word `lit` up to ASCII case folding.
fn ext_matches(chars: &Vec<char>, start: usize, end: usize, lit: &str) -> (b: bool)
    requires
        start <= end <= chars@.len(),
    ensures
        b == eq_fold(chars@.subrange(start as int, end as int), lit@),
{
    let len = end;
    let llen = lit.unicode_len();
    let ghost a = chars@.subrange(start as int, len as int);
    if len - start != llen {
        return false;
    }
    let mut k: usize = 0;
    while k < llen
        invariant
            len == end,
            len <= chars@.len(),
            start <= len,
            a == chars@.subrange(start as int, len as int),
            llen == lit@.len(),
            a.len() == llen,
            k <= llen,
            forall|i: int| 0 <= i < k ==> fold_match(a[i], #[trigger] lit@[i]),
        decreases llen - k,
    {
        let c = chars[start + k];
        let e = lit.get_char(k);
        let cv = c as u32;
        let matched = c == e || (cv >= 65 && cv <= 90 && cv + 32 == (e as u32));
        if !matched {
            assert(!fold_match(a[k as int], lit@[k as int]));
            return false;
        }
        assert(fold_match(a[k as int], lit@[k as int]));
        k = k + 1;
    }
    true
}

/// Maps the path's lower-cased extension through the fixed table, before
/// any file content is ever read: `Ok` with the category exactly when the
/// table knows the extension, `UnsupportedFileType` otherwise.
pub fn identify_file_type(file_path: &str) -> (r: Result<FileType, Error>)
    ensures
        r is Ok <==> file_type_of(file_path@) is Some,
        r matches Ok(t) ==> file_type_of(file_path@) == Some(t),
        r matches Err(e) ==> e == Error::UnsupportedFileType,
{
    let chars = path_chars(file_path);
    let (base, end) = base_start(&chars);
    let ghost name = chars@.subrange(base as int, end as int);
    match ext_start(&chars, base, end) {
        None => Err(Error::UnsupportedFileType),
        Some(j) => {
            if ext_matches(&chars, j, end, "doc") || ext_matches(&chars, j, end, "docx")
                || ext_matches(&chars, j, end, "pdf") || ext_matches(&chars, j, end, "txt") {
                Ok(FileType::Doc)
            } else if ext_matches(&chars, j, end, "jpg") || ext_matches(&chars, j, end, "jpeg")
                || ext_matches(&chars, j, end, "png") || ext_matches(&chars, j, end, "gif") {
                Ok(FileType::Image)
            } else if ext_matches(&chars, j, end, "mp4") || ext_matches(&chars, j, end, "avi")
                || ext_matches(&chars, j, end, "mov") {
                Ok(FileType::Video)
            } else if ext_matches(&chars, j, end, "mp3") || ext_matches(&chars, j, end, "wav")
                || ext_matches(&chars, j, end, "ogg") {
                Ok(FileType::Audio)
            } else {
                Err(Error::UnsupportedFileType)
            }
        },
    }
}

} // verus!
