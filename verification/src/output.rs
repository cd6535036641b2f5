//! Output-format selection: mapping format names and filename extensions
//! to the supported image formats, and rewriting filename extensions.
//!
//! The writers that encode and save pixel data live outside the verified
//! library; everything here is filename text.
use vstd::prelude::*;

use crate::path::{after_last_slash, lemma_suffix_after_last_split, plain_path, suffix_after_last};
use crate::util::seq_eq_nocase;

verus! {

/// An image file format the toolkit can write.
#[derive(Debug, Copy, Clone, PartialEq, Eq, Structural)]
pub enum OutputFormat {
    PNG,
    JPEG,
    TIFF,
    DNG,
}

/// Failure to pick an output format from a name or a filename.
#[derive(Debug, Copy, Clone, PartialEq, Eq, Structural)]
pub enum OutputError {
    /// The name or extension matches no supported format.
    UnsupportedFormat,
    /// The filename carries no usable extension.
    NoExtension,
}

/// The format a spelled-out name selects, ignoring ASCII case.
pub open spec fn spec_format_from_string(s: Seq<char>) -> Result<OutputFormat, OutputError> {
    if seq_eq_nocase(s, seq!['p', 'n', 'g']) {
        Ok(OutputFormat::PNG)
    } else if seq_eq_nocase(s, seq!['j', 'p', 'g']) || seq_eq_nocase(
        s,
        seq!['j', 'p', 'e', 'g'],
    ) {
        Ok(OutputFormat::JPEG)
    } else if seq_eq_nocase(s, seq!['t', 'i', 'f']) || seq_eq_nocase(
        s,
        seq!['t', 'i', 'f', 'f'],
    ) {
        Ok(OutputFormat::TIFF)
    } else if seq_eq_nocase(s, seq!['d', 'n', 'g']) {
        Ok(OutputFormat::DNG)
    } else {
        Err(OutputError::UnsupportedFormat)
    }
}

impl OutputFormat {
    /// Picks the format a spelled-out name selects, in any ASCII case.
    pub fn from_string(s: &str) -> (r: Result<OutputFormat, OutputError>)
        ensures
            r == spec_format_from_string(s@),
    {
        proof {
            reveal_strlit("png");
            reveal_strlit("jpg");
            reveal_strlit("jpeg");
            reveal_strlit("tif");
            reveal_strlit("tiff");
            reveal_strlit("dng");
            assert("png"@ =~= seq!['p', 'n', 'g']);
            assert("jpg"@ =~= seq!['j', 'p', 'g']);
            assert("jpeg"@ =~= seq!['j', 'p', 'e', 'g']);
            assert("tif"@ =~= seq!['t', 'i', 'f']);
            assert("tiff"@ =~= seq!['t', 'i', 'f', 'f']);
            assert("dng"@ =~= seq!['d', 'n', 'g']);
        }
        if crate::util::str_eq_nocase(s, "png") {
            Ok(OutputFormat::PNG)
        } else if crate::util::str_eq_nocase(s, "jpg") || crate::util::str_eq_nocase(s, "jpeg") {
            Ok(OutputFormat::JPEG)
        } else if crate::util::str_eq_nocase(s, "tif") || crate::util::str_eq_nocase(s, "tiff") {
            Ok(OutputFormat::TIFF)
        } else if crate::util::str_eq_nocase(s, "dng") {
            Ok(OutputFormat::DNG)
        } else {
            Err(OutputError::UnsupportedFormat)
        }
    }
}

/// The final component of a path the way the filesystem resolves it:
/// trailing separators are ignored, a trailing current-directory dot is
/// skipped, and a parent-directory reference has no final component.
pub open spec fn spec_file_name(s: Seq<char>) -> Option<Seq<char>>
    decreases s.len(),
{
    if s.len() == 0 {
        None
    } else if s.last() == '/' {
        spec_file_name(s.drop_last())
    } else {
        let seg = after_last_slash(s);
        if seg == seq!['.'] {
            spec_file_name(s.drop_last())
        } else if seg == seq!['.', '.'] {
            None
        } else {
            Some(seg)
        }
    }
}

/// The extension of a bare filename: the text after its last dot, unless
/// the name has no dot or only its leading character is one.
pub open spec fn spec_extension_of(name: Seq<char>) -> Option<Seq<char>> {
    let suf = suffix_after_last(name, '.');
    if suf.len() < name.len() && name.len() - suf.len() - 1 >= 1 {
        Some(suf)
    } else {
        None
    }
}

/// The format chosen for a filename: the extension of its final
/// component, matched against the supported formats in any ASCII case.
pub open spec fn spec_format_from_filename(s: Seq<char>) -> Result<OutputFormat, OutputError> {
    match spec_file_name(s) {
        Option::None => Err(OutputError::NoExtension),
        Option::Some(name) => match spec_extension_of(name) {
            Option::None => Err(OutputError::NoExtension),
            Option::Some(e) => match spec_format_from_string(e) {
                Ok(f) => Ok(f),
                Err(_) => Err(OutputError::UnsupportedFormat),
            },
        },
    }
}

/// Extracts the final component of a path, resolving trailing separators
/// and dot references as the filesystem would.
fn file_name_of(s: &str) -> (r: Option<String>)
    ensures
        match spec_file_name(s@) {
            Option::None => r is None,
            Option::Some(name) => r matches Some(v) && v@ == name,
        },
{
    let n: usize = s.unicode_len();
    let mut end: usize = n;
    proof {
        assert(s@.subrange(0, n as int) =~= s@);
    }
    loop
        invariant
            end <= n,
            n == s@.len(),
            spec_file_name(s@.subrange(0, end as int)) == spec_file_name(s@),
        decreases end,
    {
        let ghost cur = s@.subrange(0, end as int);
        if end == 0 {
            return None;
        }
        if s.get_char(end - 1) == '/' {
            proof {
                assert(cur.last() == '/');
                assert(cur.drop_last() =~= s@.subrange(0, end - 1));
            }
            end -= 1;
        } else {
            // Scan to the start of the final component.
            let mut st: usize = end;
            while st > 0 && s.get_char(st - 1) != '/'
                invariant
                    st <= end,
                    end <= n,
                    n == s@.len(),
                    forall|j: int| st <= j < end ==> s@[j] != '/',
                decreases st,
            {
                st -= 1;
            }
            proof {
                assert(forall|j: int| st <= j < end ==> cur[j] == s@[j]);
                lemma_suffix_after_last_split(cur, '/', st as int);
                assert(after_last_slash(cur) =~= s@.subrange(st as int, end as int));
            }
            if end - st == 1 && s.get_char(st) == '.' {
                proof {
                    assert(after_last_slash(cur) =~= seq!['.']);
                    assert(cur.last() != '/');
                    assert(cur.drop_last() =~= s@.subrange(0, end - 1));
                }
                end -= 1;
            } else if end - st == 2 && s.get_char(st) == '.' && s.get_char(st + 1) == '.' {
                proof {
                    assert(after_last_slash(cur) =~= seq!['.', '.']);
                    assert(cur.last() != '/');
                }
                return None;
            } else {
                proof {
                    assert(cur.last() != '/');
                    let seg = after_last_slash(cur);
                    assert(seg.len() == end - st);
                    if seg == seq!['.'] {
                        assert(seg[0] == '.');
                        assert(false);
                    }
                    if seg == seq!['.', '.'] {
                        assert(seg[0] == '.' && seg[1] == '.');
                        assert(false);
                    }
                }
                let piece: &str = s.substring_char(st, end);
                return Some(piece.to_owned());
            }
        }
    }
}

/// Picks the output format that a filename's extension selects.
pub fn determine_output_format_from_filename(filename: &str) -> (r: Result<
    OutputFormat,
    OutputError,
>)
    ensures
        r == spec_format_from_filename(filename@),
{
    let name: String = match file_name_of(filename) {
        Option::None => {
            return Err(OutputError::NoExtension);
        },
        Option::Some(v) => v,
    };
    let ns: &str = name.as_str();
    let m: usize = ns.unicode_len();
    // Scan to just after the last dot of the name.
    let mut d: usize = m;
    while d > 0 && ns.get_char(d - 1) != '.'
        invariant
            d <= m,
            m == ns@.len(),
            forall|j: int| d <= j < m ==> ns@[j] != '.',
        decreases d,
    {
        d -= 1;
    }
    if d <= 1 {
        // No dot at all, or only the leading hidden-file dot.
        proof {
            if d == 0 {
                lemma_suffix_after_last_split(ns@, '.', 0);
                assert(ns@.subrange(0, m as int) =~= ns@);
            } else {
                lemma_suffix_after_last_split(ns@, '.', 1);
                assert(suffix_after_last(ns@, '.').len() == m - 1);
            }
        }
        return Err(OutputError::NoExtension);
    }
    proof {
        lemma_suffix_after_last_split(ns@, '.', d as int);
    }
    let ext: &str = ns.substring_char(d, m);
    match OutputFormat::from_string(ext) {
        Ok(f) => Ok(f),
        Err(_) => Err(OutputError::UnsupportedFormat),
    }
}

/// A filename with its extension replaced: the final component keeps its
/// stem, and the new extension is appended after a dot (or nothing when
/// the new extension is empty).
pub open spec fn spec_with_extension(s: Seq<char>, ext: Seq<char>) -> Seq<char> {
    let name = after_last_slash(s);
    let suf = suffix_after_last(name, '.');
    let stem_len: int = if suf.len() < name.len() && name.len() - suf.len() - 1 >= 1 {
        name.len() - suf.len() - 1
    } else {
        name.len() as int
    };
    s.subrange(0, s.len() - name.len() + stem_len) + (if ext.len() > 0 {
        seq!['.'] + ext
    } else {
        Seq::empty()
    })
}

/// Replaces the extension of the path's final component with
/// `new_extension`.
pub fn replace_extension_with(filename: &str, new_extension: &str) -> (r: Result<
    String,
    OutputError,
>)
    requires
        plain_path(filename@),
        forall|i: int| 0 <= i < new_extension@.len() ==> new_extension@[i] != '/',
    ensures
        r matches Ok(v) && v@ == spec_with_extension(filename@, new_extension@),
{
    let n: usize = filename.unicode_len();
    let mut p: usize = n;
    while p > 0 && filename.get_char(p - 1) != '/'
        invariant
            p <= n,
            n == filename@.len(),
            forall|j: int| p <= j < n ==> filename@[j] != '/',
        decreases p,
    {
        p -= 1;
    }
    proof {
        lemma_suffix_after_last_split(filename@, '/', p as int);
        assert(after_last_slash(filename@).len() == n - p);
    }
    let ghost name = after_last_slash(filename@);
    // Scan to just after the last dot of the final component.
    let mut d: usize = n;
    while d > p && filename.get_char(d - 1) != '.'
        invariant
            p <= d <= n,
            n == filename@.len(),
            forall|j: int| d <= j < n ==> filename@[j] != '.',
        decreases d,
    {
        d -= 1;
    }
    proof {
        assert(forall|j: int| 0 <= j < name.len() ==> name[j] == filename@[p + j]);
        if d > p {
            lemma_suffix_after_last_split(name, '.', d - p);
        } else {
            lemma_suffix_after_last_split(name, '.', 0);
            assert(name.subrange(0, name.len() as int) =~= name);
        }
    }
    let stem_end: usize = if d > p && d - 1 > p {
        d - 1
    } else {
        n
    };
    let stem: &str = filename.substring_char(0, stem_end);
    let mut r: String = stem.to_owned();
    if new_extension.unicode_len() > 0 {
        proof {
            reveal_strlit(".");
            assert("."@ =~= seq!['.']);
        }
        r.append(".");
        r.append(new_extension);
    }
    proof {
        assert(r@ =~= spec_with_extension(filename@, new_extension@));
    }
    Ok(r)
}

/// Replaces the extension of the path's final component with the
/// canonical lowercase extension of the given format.
pub fn replace_extension_for(filename: &str, format: OutputFormat) -> (r: Result<
    String,
    OutputError,
>)
    requires
        plain_path(filename@),
    ensures
        format == OutputFormat::DNG ==> (r matches Ok(v) && v@ == spec_with_extension(
            filename@,
            seq!['d', 'n', 'g'],
        )),
        format == OutputFormat::PNG ==> (r matches Ok(v) && v@ == spec_with_extension(
            filename@,
            seq!['p', 'n', 'g'],
        )),
        format == OutputFormat::TIFF ==> (r matches Ok(v) && v@ == spec_with_extension(
            filename@,
            seq!['t', 'i', 'f'],
        )),
        format == OutputFormat::JPEG ==> (r matches Ok(v) && v@ == spec_with_extension(
            filename@,
            seq!['j', 'p', 'g'],
        )),
{
    proof {
        reveal_strlit("dng");
        reveal_strlit("png");
        reveal_strlit("tif");
        reveal_strlit("jpg");
        assert("dng"@ =~= seq!['d', 'n', 'g']);
        assert("png"@ =~= seq!['p', 'n', 'g']);
        assert("tif"@ =~= seq!['t', 'i', 'f']);
        assert("jpg"@ =~= seq!['j', 'p', 'g']);
    }
    match format {
        OutputFormat::DNG => replace_extension_with(filename, "dng"),
        OutputFormat::PNG => replace_extension_with(filename, "png"),
        OutputFormat::TIFF => replace_extension_with(filename, "tif"),
        OutputFormat::JPEG => replace_extension_with(filename, "jpg"),
    }
}

} // verus!
