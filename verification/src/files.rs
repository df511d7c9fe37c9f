//! Which files are taken as input, and what their output is called.

use vstd::prelude::*;
use vstd::string::*;

verus! {

/// An ASCII capital as its small letter, any other character as it is.
pub open spec fn ascii_lower(c: char) -> char {
    if 'A' <= c <= 'Z' {
        ((c as u32) + 32) as char
    } else {
        c
    }
}

/// The extension names an image format that is read: `jpg`, `jpeg`, `png`
/// or `webp`, in any mix of capitals and small letters.
pub open spec fn is_supported_extension(ext: Seq<char>) -> bool {
    let low = ext.map_values(|c: char| ascii_lower(c));
    low == seq!['j', 'p', 'g'] || low == seq!['j', 'p', 'e', 'g'] || low == seq!['p', 'n', 'g']
        || low == seq!['w', 'e', 'b', 'p']
}

fn is_letter(c: char, small: char, capital: char) -> (b: bool)
    requires
        'a' <= small <= 'z',
        capital as u32 + 32 == small as u32,
    ensures
        b == (ascii_lower(c) == small),
{
    c == small || c == capital
}

/// Whether a file with this extension is an input image. The extension
/// comes without its dot; a file without extension is none.
pub fn is_supported_image(extension: Option<&str>) -> (b: bool)
    ensures
        b == (extension matches Some(ext) && is_supported_extension(ext@)),
{
    match extension {
        None => false,
        Some(ext) => {
            let ghost low = ext@.map_values(|c: char| ascii_lower(c));
            let n: usize = ext.unicode_len();
            if n == 3 {
                let a = ext.get_char(0);
                let b = ext.get_char(1);
                let c = ext.get_char(2);
                let jpg = is_letter(a, 'j', 'J') && is_letter(b, 'p', 'P') && is_letter(c, 'g', 'G');
                let png = is_letter(a, 'p', 'P') && is_letter(b, 'n', 'N') && is_letter(c, 'g', 'G');
                proof {
                    assert(jpg <==> low =~= seq!['j', 'p', 'g']) by {
                        if low =~= seq!['j', 'p', 'g'] {
                            assert(low[0] == 'j' && low[1] == 'p' && low[2] == 'g');
                        }
                    }
                    assert(png <==> low =~= seq!['p', 'n', 'g']) by {
                        if low =~= seq!['p', 'n', 'g'] {
                            assert(low[0] == 'p' && low[1] == 'n' && low[2] == 'g');
                        }
                    }
                }
                jpg || png
            } else if n == 4 {
                let a = ext.get_char(0);
                let b = ext.get_char(1);
                let c = ext.get_char(2);
                let d = ext.get_char(3);
                let jpeg = is_letter(a, 'j', 'J') && is_letter(b, 'p', 'P') && is_letter(
                    c,
                    'e',
                    'E',
                ) && is_letter(d, 'g', 'G');
                let webp = is_letter(a, 'w', 'W') && is_letter(b, 'e', 'E') && is_letter(
                    c,
                    'b',
                    'B',
                ) && is_letter(d, 'p', 'P');
                proof {
                    assert(jpeg <==> low =~= seq!['j', 'p', 'e', 'g']) by {
                        if low =~= seq!['j', 'p', 'e', 'g'] {
                            assert(low[0] == 'j' && low[1] == 'p' && low[2] == 'e' && low[3]
                                == 'g');
                        }
                    }
                    assert(webp <==> low =~= seq!['w', 'e', 'b', 'p']) by {
                        if low =~= seq!['w', 'e', 'b', 'p'] {
                            assert(low[0] == 'w' && low[1] == 'e' && low[2] == 'b' && low[3]
                                == 'p');
                        }
                    }
                }
                jpeg || webp
            } else {
                false
            }
        },
    }
}

/// What a directory walk reports of one entry.
#[derive(Debug, Clone, PartialEq, Eq)]
pub struct WalkEntry {
    /// The entry is a regular file, links followed.
    pub is_file: bool,
    /// The extension of its name, without the dot, if it has one.
    pub extension: Option<String>,
}

impl WalkEntry {
    /// The entry is an input image: a regular file with a supported
    /// extension.
    pub open spec fn is_image(self) -> bool {
        self.is_file && (self.extension matches Some(ext) && is_supported_extension(ext@))
    }
}

/// Picks the input images out of the entries of a directory walk: the
/// positions of all entries that are images, in the order of the walk.
pub fn collect_image_files(entries: &Vec<WalkEntry>) -> (kept: Vec<usize>)
    ensures
        forall|k: int| 0 <= k < kept@.len() ==> (#[trigger] kept@[k]) < entries@.len(),
        forall|k: int, l: int| 0 <= k < l < kept@.len() ==> kept@[k] < kept@[l],
        forall|i: int|
            0 <= i < entries@.len() ==> (kept@.contains(i as usize) <==> (
            #[trigger] entries@[i]).is_image()),
{
    let mut kept: Vec<usize> = Vec::new();
    let mut i: usize = 0;
    while i < entries.len()
        invariant
            i <= entries@.len(),
            forall|k: int| 0 <= k < kept@.len() ==> (#[trigger] kept@[k]) < i,
            forall|k: int, l: int| 0 <= k < l < kept@.len() ==> kept@[k] < kept@[l],
            forall|j: int|
                0 <= j < i ==> (kept@.contains(j as usize) <==> (#[trigger] entries@[j]).is_image()),
        decreases entries@.len() - i,
    {
        let entry = &entries[i];
        let ghost before = kept@;
        let supported = match &entry.extension {
            None => false,
            Some(ext) => is_supported_image(Some(ext.as_str())),
        };
        if entry.is_file && supported {
            kept.push(i);
            proof {
                assert(kept@[before.len() as int] == i);
                assert forall|j: int| 0 <= j < i + 1 implies (kept@.contains(j as usize) <==> (
                #[trigger] entries@[j]).is_image()) by {
                    if j < i {
                        if before.contains(j as usize) {
                            let k = choose|k: int| 0 <= k < before.len() && before[k] == j as usize;
                            assert(kept@[k] == j as usize);
                        }
                    }
                }
            }
        }
        i += 1;
    }
    kept
}

/// The name of the output file of an input with this stem.
pub open spec fn output_name(stem: Seq<char>) -> Seq<char> {
    stem + "_processed.jpg"@
}

/// The name under which the output is written before it takes its place.
/// It is derived from the output's own name, so that two inputs never share
/// one.
pub open spec fn scratch_name(stem: Seq<char>) -> Seq<char> {
    stem + "_processed.tmp.jpg"@
}

/// Why an input path yields no output path.
#[derive(Clone, Copy, Debug, PartialEq, Eq, Structural)]
pub enum PathError {
    /// The path has no parent directory.
    NoParent,
    /// The path has no file stem.
    NoStem,
}

/// The file names of one output, both in the directory of the input.
#[derive(Debug, Clone, PartialEq, Eq)]
pub struct OutputNames {
    /// `<stem>_processed.jpg`, whatever the format of the input.
    pub file_name: String,
    /// `<stem>_processed.tmp.jpg`.
    pub scratch_name: String,
}

/// What [`generate_output_path`] returns for a path of which this much is
/// known.
pub open spec fn path_error(has_parent: bool, stem: Option<Seq<char>>) -> Option<PathError> {
    if !has_parent {
        Some(PathError::NoParent)
    } else if stem is None {
        Some(PathError::NoStem)
    } else {
        None
    }
}

/// Derives the names of the output from the input path: whether it has a
/// parent directory, and its file stem. The parent is asked for first.
pub fn generate_output_path(has_parent: bool, stem: Option<&str>) -> (r: Result<
    OutputNames,
    PathError,
>)
    ensures
        match r {
            Ok(names) => stem matches Some(s) && has_parent && names.file_name@ == output_name(s@)
                && names.scratch_name@ == scratch_name(s@),
            Err(e) => path_error(
                has_parent,
                match stem {
                    Some(s) => Some(s@),
                    None => None,
                },
            ) == Some(e),
        },
{
    if !has_parent {
        return Err(PathError::NoParent);
    }
    match stem {
        None => Err(PathError::NoStem),
        Some(s) => {
            let file_name = String::from_str(s).concat("_processed.jpg");
            let scratch_name = String::from_str(s).concat("_processed.tmp.jpg");
            Ok(OutputNames { file_name, scratch_name })
        },
    }
}

} // verus!
