//! Directory listings: one record per entry, directories first, then by name without
//! regard to case.

use vstd::prelude::*;
use vstd::string::*;
use crate::text::{
    chars_of, decimal, decimal_string, lemma_text_less_total, lemma_text_less_transitive,
    lowercase, text_before, text_less, to_lowercase,
};

verus! {

/// One entry of a listing.
#[derive(Debug, Clone, PartialEq, Eq)]
pub struct FileInfo {
    pub name: String,
    pub path: String,
    pub is_dir: bool,
    pub size: Option<u64>,
    pub modified: Option<String>,
    pub extension: Option<String>,
}

/// What a directory walk reads of one entry.
#[derive(Debug, Clone, PartialEq, Eq)]
pub struct RawEntry {
    /// The last component of the path, where it has one that is valid Unicode.
    pub file_name: Option<String>,
    /// The whole path as text.
    pub path: String,
    pub is_dir: bool,
    /// The length in bytes, where the metadata could be read.
    pub len: Option<u64>,
    /// Whole seconds from the Unix epoch to the last modification, where known.
    pub modified_secs: Option<u64>,
    /// The extension of the file name, where it has one that is valid Unicode.
    pub extension: Option<String>,
}

/// A listing entry as plain values.
pub struct FileInfoView {
    pub name: Seq<char>,
    pub path: Seq<char>,
    pub is_dir: bool,
    pub size: Option<u64>,
    pub modified: Option<Seq<char>>,
    pub extension: Option<Seq<char>>,
}

pub open spec fn opt_text(o: Option<String>) -> Option<Seq<char>> {
    match o {
        Some(s) => Some(s@),
        None => None,
    }
}

impl View for FileInfo {
    type V = FileInfoView;

    open spec fn view(&self) -> FileInfoView {
        FileInfoView {
            name: self.name@,
            path: self.path@,
            is_dir: self.is_dir,
            size: self.size,
            modified: opt_text(self.modified),
            extension: opt_text(self.extension),
        }
    }
}

/// The views of a sequence of entries.
pub open spec fn views(s: Seq<FileInfo>) -> Seq<FileInfoView> {
    Seq::new(s.len(), |i: int| s[i]@)
}

/// The record that stands for a raw entry: a nameless entry is called `Unknown`, a
/// directory has no size, and the modification time is a decimal number of seconds.
pub open spec fn described(e: RawEntry) -> FileInfoView {
    FileInfoView {
        name: match e.file_name {
            Some(n) => n@,
            None => "Unknown"@,
        },
        path: e.path@,
        is_dir: e.is_dir,
        size: if e.is_dir {
            None
        } else {
            e.len
        },
        modified: match e.modified_secs {
            Some(t) => Some(decimal(t as nat)),
            None => None,
        },
        extension: opt_text(e.extension),
    }
}

/// The records of a sequence of raw entries.
pub open spec fn described_all(s: Seq<RawEntry>) -> Seq<FileInfoView> {
    Seq::new(s.len(), |i: int| described(s[i]))
}

/// `a` is listed strictly before `b`: a directory before a file, and among entries of one
/// kind the one whose lower-case name comes first.
pub open spec fn listed_before(a: FileInfoView, b: FileInfoView) -> bool {
    (a.is_dir && !b.is_dir) || (a.is_dir == b.is_dir && text_less(
        lowercase(a.name),
        lowercase(b.name),
    ))
}

/// `p` arranges `input` into `output`, in listing order, entries that neither precedes the
/// other keeping the order they had in `input`.
pub open spec fn arranges(p: Seq<int>, input: Seq<FileInfoView>, output: Seq<FileInfoView>) -> bool {
    &&& p.len() == input.len()
    &&& output.len() == input.len()
    &&& forall|k: int| 0 <= k < p.len() ==> 0 <= #[trigger] p[k] < input.len()
    &&& forall|i: int, j: int| 0 <= i < j < p.len() ==> p[i] != p[j]
    &&& forall|k: int| 0 <= k < p.len() ==> #[trigger] output[k] == input[p[k]]
    &&& forall|i: int, j: int|
        0 <= i < j < p.len() ==> follows(input, #[trigger] p[i], #[trigger] p[j])
}

/// The entry at `a` may stand before the entry at `b`: `b` does not precede it, and if
/// neither precedes the other then `a` came first.
pub open spec fn follows(input: Seq<FileInfoView>, a: int, b: int) -> bool {
    !listed_before(input[b], input[a]) && (listed_before(input[a], input[b]) || a < b)
}

/// `output` is `input` sorted stably into listing order.
pub open spec fn is_listing_of(output: Seq<FileInfoView>, input: Seq<FileInfoView>) -> bool {
    exists|p: Seq<int>| arranges(p, input, output)
}

/// Listing order is asymmetric.
pub proof fn lemma_listed_before_asymmetric(a: FileInfoView, b: FileInfoView)
    requires
        listed_before(a, b),
    ensures
        !listed_before(b, a),
{
    lemma_text_less_total(lowercase(a.name), lowercase(b.name));
}

/// Whatever precedes `c` precedes `b` too, or else `b` precedes `c`.
pub proof fn lemma_listed_before_splits(a: FileInfoView, b: FileInfoView, c: FileInfoView)
    requires
        listed_before(a, c),
    ensures
        listed_before(a, b) || listed_before(b, c),
{
    let ka = lowercase(a.name);
    let kb = lowercase(b.name);
    let kc = lowercase(c.name);
    lemma_text_less_total(ka, kb);
    if text_less(kb, ka) && text_less(ka, kc) {
        lemma_text_less_transitive(kb, ka, kc);
    }
}

/// Whether an entry with the given kind and lower-case name is listed before another.
fn key_before(a_dir: bool, a_key: &Vec<char>, b_dir: bool, b_key: &Vec<char>) -> (r: bool)
    ensures
        r == ((a_dir && !b_dir) || (a_dir == b_dir && text_less(a_key@, b_key@))),
{
    if a_dir != b_dir {
        a_dir
    } else {
        text_before(a_key, b_key)
    }
}

/// Sorts a listing: directories first, then by lower-case name; entries that compare
/// equal keep their order.
pub fn sort_listing(files: Vec<FileInfo>) -> (sorted: Vec<FileInfo>)
    ensures
        is_listing_of(views(sorted@), views(files@)),
{
    let ghost input = views(files@);
    let mut out: Vec<FileInfo> = Vec::new();
    let mut keys: Vec<Vec<char>> = Vec::new();
    let ghost mut perm: Seq<int> = Seq::empty();
    for f in it: files
        invariant
            it.seq() == files@,
            input == views(files@),
            out.len() == it.index(),
            keys.len() == it.index(),
            perm.len() == it.index(),
            forall|k: int| 0 <= k < perm.len() ==> 0 <= #[trigger] perm[k] < it.index(),
            forall|i: int, j: int| 0 <= i < j < perm.len() ==> perm[i] != perm[j],
            forall|k: int| 0 <= k < perm.len() ==> (#[trigger] out@[k])@ == input[perm[k]],
            forall|k: int| 0 <= k < perm.len() ==> (#[trigger] keys@[k])@ == lowercase(out@[k].name@),
            forall|i: int, j: int|
                0 <= i < j < perm.len() ==> follows(input, #[trigger] perm[i], #[trigger] perm[j]),
    {
        let ghost at = it.index() as int;
        assert(f@ == input[at]);
        let folded = to_lowercase(f.name.as_str());
        let key = chars_of(folded.as_str());
        let mut pos: usize = out.len();
        while pos > 0 && key_before(f.is_dir, &key, out[pos - 1].is_dir, &keys[pos - 1])
            invariant
                pos <= out.len(),
                out.len() == perm.len(),
                keys.len() == perm.len(),
                key@ == lowercase(f.name@),
                f@ == input[at],
                forall|k: int| 0 <= k < perm.len() ==> (#[trigger] out@[k])@ == input[perm[k]],
                forall|k: int| 0 <= k < perm.len() ==> (#[trigger] keys@[k])@ == lowercase(out@[k].name@),
                forall|k: int| pos <= k < perm.len() ==> listed_before(input[at], input[#[trigger] perm[k]]),
            decreases pos,
        {
            pos -= 1;
        }
        proof {
            let old_perm = perm;
            let new_perm = old_perm.insert(pos as int, at);
            assert forall|i: int, j: int| 0 <= i < j < new_perm.len() implies follows(
                input,
                #[trigger] new_perm[i],
                #[trigger] new_perm[j],
            ) by {
                if j == pos {
                    // an earlier entry against the new one
                    let last = old_perm[pos - 1];
                    assert(!listed_before(input[at], input[last]));
                    if i < pos - 1 {
                        assert(follows(input, old_perm[i], last));
                        if listed_before(input[at], input[old_perm[i]]) {
                            lemma_listed_before_splits(input[at], input[last], input[old_perm[i]]);
                        }
                    }
                } else if i == pos {
                    // the new entry against a later one
                    assert(new_perm[j] == old_perm[j - 1]);
                    lemma_listed_before_asymmetric(input[at], input[old_perm[j - 1]]);
                } else if j < pos {
                    assert(follows(input, old_perm[i], old_perm[j]));
                } else if i < pos {
                    assert(new_perm[j] == old_perm[j - 1]);
                    assert(follows(input, old_perm[i], old_perm[j - 1]));
                } else {
                    assert(new_perm[i] == old_perm[i - 1]);
                    assert(new_perm[j] == old_perm[j - 1]);
                    assert(follows(input, old_perm[i - 1], old_perm[j - 1]));
                }
            }
            assert forall|i: int, j: int| 0 <= i < j < new_perm.len() implies new_perm[i]
                != new_perm[j] by {
                if i != pos && j != pos {
                    let oi = if i < pos { i } else { i - 1 };
                    let oj = if j < pos { j } else { j - 1 };
                    assert(new_perm[i] == old_perm[oi]);
                    assert(new_perm[j] == old_perm[oj]);
                }
            }
            perm = new_perm;
        }
        out.insert(pos, f);
        keys.insert(pos, key);
    }
    proof {
        assert(views(out@).len() == input.len());
        assert forall|k: int| 0 <= k < perm.len() implies #[trigger] views(out@)[k] == input[perm[k]] by {
            assert(out@[k]@ == input[perm[k]]);
        }
        assert(arranges(perm, input, views(out@)));
    }
    out
}

/// The record of one raw entry.
pub fn describe(entry: RawEntry) -> (info: FileInfo)
    ensures
        info@ == described(entry),
{
    let name = match entry.file_name {
        Some(n) => n,
        None => String::from_str("Unknown"),
    };
    let size = if entry.is_dir {
        None
    } else {
        entry.len
    };
    let modified = match entry.modified_secs {
        Some(t) => Some(decimal_string(t)),
        None => None,
    };
    FileInfo {
        name,
        path: entry.path,
        is_dir: entry.is_dir,
        size,
        modified,
        extension: entry.extension,
    }
}

/// The listing of a directory whose entries were read as `entries`: one record for each,
/// sorted as [`sort_listing`] does.
pub fn list_directory(entries: Vec<RawEntry>) -> (listing: Vec<FileInfo>)
    ensures
        is_listing_of(views(listing@), described_all(entries@)),
{
    let mut files: Vec<FileInfo> = Vec::new();
    for e in it: entries
        invariant
            it.seq() == entries@,
            files.len() == it.index(),
            forall|k: int| 0 <= k < files.len() ==> (#[trigger] files@[k])@ == described(entries@[k]),
    {
        let info = describe(e);
        files.push(info);
    }
    assert(views(files@) =~= described_all(entries@));
    sort_listing(files)
}

} // verus!
