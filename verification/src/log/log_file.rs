//! A log file: its name, its bytes and the colour its lines are marked with,
//! which is derived from the name. Compressed files are recognised by their
//! extension or their first bytes.
use vstd::prelude::*;

use std::hash::{Hash, Hasher};

use crate::style::Color;
use crate::text::{ascii_lowercase, str_chars, to_ascii_lowercase_chars, chars_equal};

verus! {

/// The kind of archive a log file is packed in.
#[derive(Debug, Clone, Copy, PartialEq, Eq, Structural)]
pub enum ArchiveType {
    Zip,
    Gzip,
}

/// What `std::hash::DefaultHasher::new()` finishes with after hashing the path
/// `name` (`Path::hash`).
pub uninterp spec fn path_hash(name: Seq<char>) -> int;

/// `DefaultHasher::new`, `<Path as Hash>::hash` and `Hasher::finish`: the hash
/// of the path. `DefaultHasher::new()` is documented to give the same result
/// for the same input in every instance, so the result is named `path_hash`.
#[verifier::external_body]
fn hash_path(name: &str) -> (h: u64)
    ensures
        h as int == path_hash(name@),
{
    let mut hasher = std::hash::DefaultHasher::new();
    std::path::Path::new(name).hash(&mut hasher);
    hasher.finish()
}

/// The palette index of a file's colour: an even number from 2 to 230, taken
/// from the low byte of the hash of its name.
pub open spec fn color_index(hash: u64) -> u8 {
    (((hash % 256) % 115 + 1) * 2) as u8
}

/// A log file.
#[derive(Debug)]
pub struct LogFile {
    pub name: String,
    pub contents: Vec<u8>,
    pub color: Color,
}

impl LogFile {
    /// A file with the given name and bytes; files with the same name get the
    /// same colour.
    pub fn new(name: String, contents: Vec<u8>) -> (f: LogFile)
        ensures
            f.name@ == name@,
            f.contents@ == contents@,
            f.color == Color::Indexed(color_index(path_hash(name@) as u64)),
    {
        let hash = hash_path(name.as_str());
        let color_index = ((hash % 256) % 115 + 1) * 2;
        LogFile { name, contents, color: Color::Indexed(color_index as u8) }
    }

    /// The bytes of the file.
    pub fn contents(&self) -> (c: &[u8])
        ensures
            c@ == self.contents@,
    {
        self.contents.as_slice()
    }

    /// The archive a file is packed in: by its extension (`zip`, `gz`, `gzip`,
    /// in any case) first, else by its first bytes (`PK\x03\x04` for zip,
    /// `\x1f\x8b` for gzip). `head` holds the bytes that could be read from
    /// the start of the file, at most four.
    pub fn archive_type(extension: Option<&str>, head: &[u8]) -> (t: Option<ArchiveType>)
        ensures
            t == archive_type_of(
                match extension {
                    Some(e) => Some(e@),
                    None => None,
                },
                head@,
            ),
    {
        if let Some(e) = extension {
            let ext = to_ascii_lowercase_chars(&str_chars(e));
            if chars_equal(&ext, &str_chars("zip")) {
                return Some(ArchiveType::Zip);
            }
            if chars_equal(&ext, &str_chars("gz")) || chars_equal(&ext, &str_chars("gzip")) {
                return Some(ArchiveType::Gzip);
            }
        }
        if head.len() >= 4 && head[0] == 0x50 && head[1] == 0x4b && head[2] == 0x03 && head[3]
            == 0x04 {
            return Some(ArchiveType::Zip);
        }
        if head.len() >= 2 && head[0] == 0x1f && head[1] == 0x8b {
            return Some(ArchiveType::Gzip);
        }
        None
    }
}

/// The archive type of a file with the given extension and first bytes.
pub open spec fn archive_type_of(extension: Option<Seq<char>>, head: Seq<u8>) -> Option<ArchiveType> {
    let by_extension = match extension {
        Some(e) => if ascii_lowercase(e) == "zip"@ {
            Some(ArchiveType::Zip)
        } else if ascii_lowercase(e) == "gz"@ || ascii_lowercase(e) == "gzip"@ {
            Some(ArchiveType::Gzip)
        } else {
            None
        },
        None => None,
    };
    match by_extension {
        Some(t) => Some(t),
        None => if head.len() >= 4 && head[0] == 0x50u8 && head[1] == 0x4bu8 && head[2] == 0x03u8
            && head[3] == 0x04u8 {
            Some(ArchiveType::Zip)
        } else if head.len() >= 2 && head[0] == 0x1fu8 && head[1] == 0x8bu8 {
            Some(ArchiveType::Gzip)
        } else {
            None
        },
    }
}

} // verus!
