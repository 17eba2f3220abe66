//! Content scanner.
//!
//! The storage tree is two levels deep: content directories at the
//! top, container files inside them.  The unverified shell reads the
//! tree into plain values — directory names, file names, file bytes —
//! and the scanner builds the table of entries from them: one entry
//! per file, valid where its header parses, degraded but present where
//! it does not.  A single corrupt file never aborts a scan.  Top-level
//! directories whose name starts with six zeros are an administrative
//! area, not content, and are excluded entirely.

use vstd::prelude::*;

use crate::header::spec_parse_header;
use crate::header::parse_header;
use crate::tagcodec::spec_tag_id_for;
use crate::tagcodec::get_tag_id;
use crate::tonielist::Tonie;
use crate::tonielist::catalog_attach;
use crate::tonielist::find_tonie_with_audio_id;

verus! {

/// One file found during a walk: its name and its bytes.
pub struct ScannedFile {
    /// The file's own name, the rotated first half of the tag.
    pub name: String,
    /// The file's bytes.
    pub data: Vec<u8>,
}

/// One top-level directory found during a walk.
pub struct ScannedDir {
    /// The directory's name, the rotated second half of the tag.
    pub name: String,
    /// The regular files inside it.
    pub files: Vec<ScannedFile>,
}

/// One scanned container file: its place, the header fields copied out
/// of it (zeroed where the header is corrupt), the derived tag, and
/// the catalog record attached to it, if any.  Entries live only in
/// the scan result that produced them and are rebuilt wholesale on
/// every scan.
#[derive(Debug, Clone)]
pub struct Teddyfile {
    pub path: String,
    pub is_valid: bool,
    pub hash: Vec<u8>,
    pub length: u64,
    pub audio_id: u32,
    pub chapter_pages: Vec<u32>,
    pub tag: String,
    pub info: Option<Tonie>,
}

impl Teddyfile {
    /// Assembles an entry from its parts.
    pub fn new(
        path: String,
        is_valid: bool,
        hash: Vec<u8>,
        length: u64,
        audio_id: u32,
        chapter_pages: Vec<u32>,
        tag: String,
        info: Option<Tonie>,
    ) -> (r: Self)
        ensures
            r.path == path,
            r.is_valid == is_valid,
            r.hash == hash,
            r.length == length,
            r.audio_id == audio_id,
            r.chapter_pages == chapter_pages,
            r.tag == tag,
            r.info == info,
    {
        Self { path, is_valid, hash, length, audio_id, chapter_pages, tag, info }
    }
}

/// A reserved top-level name: it starts with six zeros.
pub open spec fn reserved_name(name: Seq<char>) -> bool {
    name.len() >= 6 && forall|i: int| 0 <= i < 6 ==> name[i] == '0'
}

fn is_reserved_name(name: &str) -> (b: bool)
    ensures
        b == reserved_name(name@),
{
    if name.unicode_len() < 6 {
        return false;
    }
    for i in 0..6usize
        invariant
            name@.len() >= 6,
            forall|j: int| 0 <= j < i ==> name@[j] == '0',
    {
        if name.get_char(i) != '0' {
            return false;
        }
    }
    true
}

/// The displayed location of a file: its directory's name and its own
/// name.
pub open spec fn spec_display_path(dir_name: Seq<char>, file_name: Seq<char>) -> Seq<char> {
    dir_name + "/"@ + file_name
}

/// The tag recorded for a file: derived from the two path components
/// where both are exactly 8 characters, the textual marker otherwise.
pub open spec fn spec_tag_of(dir_name: Seq<char>, file_name: Seq<char>) -> Seq<char> {
    if dir_name.len() == 8 && file_name.len() == 8 {
        spec_tag_id_for(file_name, dir_name)
    } else {
        "invalid"@
    }
}

/// What one table entry holds for a file with the given directory
/// name, file name and bytes, against the given catalog: the header
/// fields copied on a parse, zeroes and no catalog record on a decode
/// fault, and the derived tag either way.
pub open spec fn entry_matches(
    e: Teddyfile,
    dir_name: Seq<char>,
    f: ScannedFile,
    tonies: Seq<Tonie>,
) -> bool {
    &&& e.path@ == spec_display_path(dir_name, f.name@)
    &&& e.tag@ == spec_tag_of(dir_name, f.name@)
    &&& match spec_parse_header(f.data@) {
        Some(m) => {
            &&& e.is_valid
            &&& e.hash@ == m.sha1_hash
            &&& e.length == m.num_bytes as u64
            &&& e.audio_id == m.audio_id
            &&& e.chapter_pages@ == m.track_page_nums
            &&& catalog_attach(e.info, m.audio_id, tonies)
        },
        None => {
            &&& !e.is_valid
            &&& e.hash@ == Seq::<u8>::empty()
            &&& e.length == 0
            &&& e.audio_id == 0
            &&& e.chapter_pages@ == Seq::<u32>::empty()
            &&& e.info is None
        },
    }
}

fn display_path(dir_name: &str, file_name: &str) -> (r: String)
    ensures
        r@ == spec_display_path(dir_name@, file_name@),
{
    let mut out = dir_name.to_owned();
    out.append("/");
    out.append(file_name);
    out
}

fn tag_of(dir_name: &str, file_name: &str) -> (r: String)
    ensures
        r@ == spec_tag_of(dir_name@, file_name@),
{
    match get_tag_id(file_name, dir_name) {
        Some(t) => t,
        None => "invalid".to_owned(),
    }
}

/// Builds the table entry for one file and appends it: a valid entry
/// with the header's fields and the catalog record where the header
/// parses, a degraded entry with zeroed fields where it does not.
pub fn write_table_entry(
    dir_name: &str,
    file: &ScannedFile,
    files: &mut Vec<Teddyfile>,
    tonielist: &Vec<Tonie>,
)
    ensures
        final(files)@.len() == old(files)@.len() + 1,
        forall|i: int| 0 <= i < old(files)@.len() ==> final(files)@[i] == old(files)@[i],
        entry_matches(final(files)@[old(files)@.len() as int], dir_name@, *file, tonielist@),
{
    let path = display_path(dir_name, file.name.as_str());
    let tag = tag_of(dir_name, file.name.as_str());
    match parse_header(&file.data) {
        Ok(h) => {
            let info = find_tonie_with_audio_id(tonielist, h.audio_id);
            let entry = Teddyfile::new(
                path,
                true,
                h.sha1_hash,
                h.num_bytes as u64,
                h.audio_id,
                h.track_page_nums,
                tag,
                info,
            );
            files.push(entry);
        },
        Err(_) => {
            let entry = Teddyfile::new(path, false, Vec::new(), 0, 0, Vec::new(), tag, None);
            files.push(entry);
        },
    }
}

/// What a directory contributes to the scan: nothing where its name is
/// reserved, one item per file otherwise.
pub open spec fn dir_listing(d: ScannedDir) -> Seq<(Seq<char>, ScannedFile)> {
    if reserved_name(d.name@) {
        Seq::empty()
    } else {
        d.files@.map_values(|f: ScannedFile| (d.name@, f))
    }
}

/// The scan order over the whole walk: the included directories'
/// files, in the order handed in.
pub open spec fn spec_listing(dirs: Seq<ScannedDir>) -> Seq<(Seq<char>, ScannedFile)>
    decreases dirs.len(),
{
    if dirs.len() == 0 {
        Seq::empty()
    } else {
        dir_listing(dirs[0]) + spec_listing(dirs.drop_first())
    }
}

/// Splitting the walk splits the scan order.
pub proof fn lemma_listing_concat(a: Seq<ScannedDir>, b: Seq<ScannedDir>)
    ensures
        spec_listing(a + b) == spec_listing(a) + spec_listing(b),
    decreases a.len(),
{
    if a.len() == 0 {
        assert(a + b =~= b);
        assert(spec_listing(a) + spec_listing(b) =~= spec_listing(b));
    } else {
        assert((a + b).drop_first() =~= a.drop_first() + b);
        lemma_listing_concat(a.drop_first(), b);
        assert(dir_listing(a[0]) + (spec_listing(a.drop_first()) + spec_listing(b)) =~= (
        dir_listing(a[0]) + spec_listing(a.drop_first())) + spec_listing(b));
    }
}

/// Law: the scan order never holds a file of a reserved directory; a
/// top-level administrative directory is excluded entirely.
pub proof fn lemma_reserved_excluded(dirs: Seq<ScannedDir>, k: int)
    requires
        0 <= k < spec_listing(dirs).len(),
    ensures
        !reserved_name(spec_listing(dirs)[k].0),
    decreases dirs.len(),
{
    if dirs.len() > 0 {
        let head = dir_listing(dirs[0]);
        if k < head.len() {
            assert(!reserved_name(dirs[0].name@));
        } else {
            lemma_reserved_excluded(dirs.drop_first(), k - head.len());
        }
    }
}

/// Scans a walked tree against the catalog, appending one entry per
/// file of every included directory, in walk order: valid entries
/// where the header parses, degraded ones where it does not, and
/// nothing at all for reserved directories.  No corrupt file aborts
/// the scan.
pub fn populate_table(dirs: &Vec<ScannedDir>, files: &mut Vec<Teddyfile>, tonielist: &Vec<Tonie>)
    ensures
        final(files)@.len() == old(files)@.len() + spec_listing(dirs@).len(),
        forall|i: int| 0 <= i < old(files)@.len() ==> final(files)@[i] == old(files)@[i],
        forall|k: int|
            0 <= k < spec_listing(dirs@).len() ==> entry_matches(
                #[trigger] final(files)@[old(files)@.len() + k],
                spec_listing(dirs@)[k].0,
                spec_listing(dirs@)[k].1,
                tonielist@,
            ),
{
    let base = files.len();
    let mut di: usize = 0;
    while di < dirs.len()
        invariant
            di <= dirs@.len(),
            base == old(files)@.len(),
            files@.len() == base + spec_listing(dirs@.take(di as int)).len(),
            forall|i: int| 0 <= i < base ==> files@[i] == old(files)@[i],
            forall|k: int|
                0 <= k < spec_listing(dirs@.take(di as int)).len() ==> entry_matches(
                    #[trigger] files@[base + k],
                    spec_listing(dirs@.take(di as int))[k].0,
                    spec_listing(dirs@.take(di as int))[k].1,
                    tonielist@,
                ),
        decreases dirs@.len() - di,
    {
        let d = &dirs[di];
        let ghost done = spec_listing(dirs@.take(di as int));
        if !is_reserved_name(d.name.as_str()) {
            let mut fi: usize = 0;
            while fi < d.files.len()
                invariant
                    fi <= d.files@.len(),
                    base == old(files)@.len(),
                    !reserved_name(d.name@),
                    d == dirs@[di as int],
                    di < dirs@.len(),
                    done == spec_listing(dirs@.take(di as int)),
                    files@.len() == base + done.len() + fi,
                    forall|i: int| 0 <= i < base ==> files@[i] == old(files)@[i],
                    forall|k: int|
                        0 <= k < done.len() ==> entry_matches(
                            #[trigger] files@[base + k],
                            done[k].0,
                            done[k].1,
                            tonielist@,
                        ),
                    forall|j: int|
                        0 <= j < fi ==> entry_matches(
                            #[trigger] files@[base + done.len() + j],
                            d.name@,
                            d.files@[j],
                            tonielist@,
                        ),
                decreases d.files@.len() - fi,
            {
                write_table_entry(d.name.as_str(), &d.files[fi], files, tonielist);
                fi += 1;
            }
        }
        proof {
            assert(dirs@.take(di + 1 as int) =~= dirs@.take(di as int) + seq![dirs@[di as int]]);
            lemma_listing_concat(dirs@.take(di as int), seq![dirs@[di as int]]);
            let s1 = seq![dirs@[di as int]];
            assert(s1.drop_first() =~= Seq::<ScannedDir>::empty());
            assert(spec_listing(s1) == dir_listing(dirs@[di as int]) + spec_listing(
                s1.drop_first(),
            ));
            assert(spec_listing(Seq::<ScannedDir>::empty()) == Seq::<(
                Seq<char>,
                ScannedFile,
            )>::empty());
            assert(spec_listing(s1) =~= dir_listing(dirs@[di as int]));
            let dl = dir_listing(dirs@[di as int]);
            let next = spec_listing(dirs@.take(di + 1 as int));
            assert(next =~= done + dl);
            assert(files@.len() == base + next.len());
            assert forall|k: int| 0 <= k < next.len() implies entry_matches(
                #[trigger] files@[base + k],
                next[k].0,
                next[k].1,
                tonielist@,
            ) by {
                if k < done.len() {
                    assert(next[k] == done[k]);
                    assert(entry_matches(files@[base + k], done[k].0, done[k].1, tonielist@));
                } else {
                    let j = k - done.len();
                    assert(next[k] == dl[j]);
                    assert(!reserved_name(dirs@[di as int].name@));
                    assert(dl[j] == (dirs@[di as int].name@, dirs@[di as int].files@[j]));
                    assert(entry_matches(
                        files@[base + done.len() + j],
                        dirs@[di as int].name@,
                        dirs@[di as int].files@[j],
                        tonielist@,
                    ));
                }
            }
        }
        di += 1;
    }
    proof {
        assert(dirs@.take(dirs@.len() as int) =~= dirs@);
    }
}

} // verus!
