//! Catalog records.
//!
//! The catalog is an immutable, read-only lookup table handed in at
//! call time, keyed by the numeric content identifier embedded in a
//! container header.  Absence of a match is a normal condition, never
//! an error.  Fetching and decoding the table is outside work; the
//! library only holds and searches it.

use vstd::prelude::*;

verus! {

/// One identity a catalog record is known under.
#[derive(Debug, Clone)]
pub struct Id {
    pub audio_id: i64,
    pub hash: String,
    pub size: i64,
    pub tracks: i64,
    pub confidence: i64,
}

/// One dataset of a catalog record.
#[derive(Debug, Clone)]
pub struct Daum {
    pub series: Option<String>,
    pub episode: Option<String>,
    pub release: i64,
    pub language: Option<String>,
    pub category: Option<String>,
    pub runtime: i64,
    pub age: i64,
    pub origin: String,
    pub image: Option<String>,
    pub sample: Option<String>,
    pub web: Option<String>,
    pub shop_id: Option<String>,
    pub track_desc: Vec<String>,
    pub ids: Vec<Id>,
}

/// One catalog record: an article number and its datasets.
#[derive(Debug, Clone)]
pub struct Tonie {
    pub article: String,
    pub data: Vec<Daum>,
}

/// The whole catalog.
pub type ToniesRoot = Vec<Tonie>;

// ---------------------------------------------------------------
// Value equality, by content
// ---------------------------------------------------------------

/// Two optional strings with the same content.
pub open spec fn opt_str_like(a: Option<String>, b: Option<String>) -> bool {
    match (a, b) {
        (Option::None, Option::None) => true,
        (Option::Some(x), Option::Some(y)) => x@ == y@,
        _ => false,
    }
}

/// Two string lists with the same content.
pub open spec fn strs_like(a: Seq<String>, b: Seq<String>) -> bool {
    a.len() == b.len() && forall|i: int| 0 <= i < a.len() ==> a[i]@ == #[trigger] b[i]@
}

/// Two identities with the same content.
pub open spec fn id_like(a: Id, b: Id) -> bool {
    &&& a.audio_id == b.audio_id
    &&& a.hash@ == b.hash@
    &&& a.size == b.size
    &&& a.tracks == b.tracks
    &&& a.confidence == b.confidence
}

/// Two datasets with the same content.
pub open spec fn daum_like(a: Daum, b: Daum) -> bool {
    &&& opt_str_like(a.series, b.series)
    &&& opt_str_like(a.episode, b.episode)
    &&& a.release == b.release
    &&& opt_str_like(a.language, b.language)
    &&& opt_str_like(a.category, b.category)
    &&& a.runtime == b.runtime
    &&& a.age == b.age
    &&& a.origin@ == b.origin@
    &&& opt_str_like(a.image, b.image)
    &&& opt_str_like(a.sample, b.sample)
    &&& opt_str_like(a.web, b.web)
    &&& opt_str_like(a.shop_id, b.shop_id)
    &&& strs_like(a.track_desc@, b.track_desc@)
    &&& a.ids@.len() == b.ids@.len()
    &&& forall|i: int| 0 <= i < a.ids@.len() ==> #[trigger] id_like(a.ids@[i], b.ids@[i])
}

/// Two catalog records with the same content.
pub open spec fn tonie_like(a: Tonie, b: Tonie) -> bool {
    &&& a.article@ == b.article@
    &&& a.data@.len() == b.data@.len()
    &&& forall|i: int| 0 <= i < a.data@.len() ==> #[trigger] daum_like(a.data@[i], b.data@[i])
}

// ---------------------------------------------------------------
// Lookup by content identifier
// ---------------------------------------------------------------

/// The identity carries the given content identifier.
pub open spec fn id_matches(i: Id, audio_id: u32) -> bool {
    i.audio_id == audio_id as i64
}

/// The dataset is known under the given content identifier.
pub open spec fn daum_has_audio_id(d: Daum, audio_id: u32) -> bool {
    exists|k: int| 0 <= k < d.ids@.len() && id_matches(#[trigger] d.ids@[k], audio_id)
}

/// The record is known under the given content identifier.
pub open spec fn tonie_has_audio_id(t: Tonie, audio_id: u32) -> bool {
    exists|j: int| 0 <= j < t.data@.len() && daum_has_audio_id(#[trigger] t.data@[j], audio_id)
}

/// The catalog holds a record known under the given identifier.
pub open spec fn catalog_has_audio_id(tonies: Seq<Tonie>, audio_id: u32) -> bool {
    exists|i: int| 0 <= i < tonies.len() && tonie_has_audio_id(#[trigger] tonies[i], audio_id)
}

/// `info` is exactly what a lookup of `audio_id` in `tonies` yields:
/// a copy of the first record known under the identifier, or nothing
/// where the catalog holds none.
pub open spec fn catalog_attach(info: Option<Tonie>, audio_id: u32, tonies: Seq<Tonie>) -> bool {
    match info {
        Option::None => !catalog_has_audio_id(tonies, audio_id),
        Option::Some(t) => exists|i: int|
            {
                &&& 0 <= i < tonies.len()
                &&& tonie_has_audio_id(#[trigger] tonies[i], audio_id)
                &&& forall|j: int| 0 <= j < i ==> !tonie_has_audio_id(#[trigger] tonies[j], audio_id)
                &&& tonie_like(t, tonies[i])
            },
    }
}

fn clone_opt_string(x: &Option<String>) -> (r: Option<String>)
    ensures
        opt_str_like(r, *x),
{
    match x {
        Some(s) => Some(s.clone()),
        None => None,
    }
}

fn clone_strings(x: &Vec<String>) -> (r: Vec<String>)
    ensures
        strs_like(r@, x@),
{
    let mut out: Vec<String> = Vec::new();
    let mut i: usize = 0;
    while i < x.len()
        invariant
            i <= x@.len(),
            out@.len() == i,
            forall|j: int| 0 <= j < i ==> out@[j]@ == #[trigger] x@[j]@,
        decreases x@.len() - i,
    {
        out.push(x[i].clone());
        i += 1;
    }
    out
}

fn clone_id(x: &Id) -> (r: Id)
    ensures
        id_like(r, *x),
{
    Id {
        audio_id: x.audio_id,
        hash: x.hash.clone(),
        size: x.size,
        tracks: x.tracks,
        confidence: x.confidence,
    }
}

fn clone_ids(x: &Vec<Id>) -> (r: Vec<Id>)
    ensures
        r@.len() == x@.len(),
        forall|j: int| 0 <= j < x@.len() ==> #[trigger] id_like(r@[j], x@[j]),
{
    let mut out: Vec<Id> = Vec::new();
    let mut i: usize = 0;
    while i < x.len()
        invariant
            i <= x@.len(),
            out@.len() == i,
            forall|j: int| 0 <= j < i ==> #[trigger] id_like(out@[j], x@[j]),
        decreases x@.len() - i,
    {
        out.push(clone_id(&x[i]));
        i += 1;
    }
    out
}

fn clone_daum(x: &Daum) -> (r: Daum)
    ensures
        daum_like(r, *x),
{
    Daum {
        series: clone_opt_string(&x.series),
        episode: clone_opt_string(&x.episode),
        release: x.release,
        language: clone_opt_string(&x.language),
        category: clone_opt_string(&x.category),
        runtime: x.runtime,
        age: x.age,
        origin: x.origin.clone(),
        image: clone_opt_string(&x.image),
        sample: clone_opt_string(&x.sample),
        web: clone_opt_string(&x.web),
        shop_id: clone_opt_string(&x.shop_id),
        track_desc: clone_strings(&x.track_desc),
        ids: clone_ids(&x.ids),
    }
}

/// A content-equal copy of a catalog record.
pub fn clone_tonie(x: &Tonie) -> (r: Tonie)
    ensures
        tonie_like(r, *x),
{
    let mut data: Vec<Daum> = Vec::new();
    let mut i: usize = 0;
    while i < x.data.len()
        invariant
            i <= x.data@.len(),
            data@.len() == i,
            forall|j: int| 0 <= j < i ==> #[trigger] daum_like(data@[j], x.data@[j]),
        decreases x.data@.len() - i,
    {
        data.push(clone_daum(&x.data[i]));
        i += 1;
    }
    Tonie { article: x.article.clone(), data }
}

fn daum_matches(d: &Daum, audio_id: u32) -> (b: bool)
    ensures
        b == daum_has_audio_id(*d, audio_id),
{
    let mut k: usize = 0;
    while k < d.ids.len()
        invariant
            k <= d.ids@.len(),
            forall|x: int| 0 <= x < k ==> !id_matches(#[trigger] d.ids@[x], audio_id),
        decreases d.ids@.len() - k,
    {
        if d.ids[k].audio_id == audio_id as i64 {
            return true;
        }
        k += 1;
    }
    false
}

fn tonie_matches(t: &Tonie, audio_id: u32) -> (b: bool)
    ensures
        b == tonie_has_audio_id(*t, audio_id),
{
    let mut j: usize = 0;
    while j < t.data.len()
        invariant
            j <= t.data@.len(),
            forall|x: int| 0 <= x < j ==> !daum_has_audio_id(#[trigger] t.data@[x], audio_id),
        decreases t.data@.len() - j,
    {
        if daum_matches(&t.data[j], audio_id) {
            return true;
        }
        j += 1;
    }
    false
}

/// Looks the content identifier up in the catalog: a copy of the first
/// record known under it, or nothing where the catalog holds none.
pub fn find_tonie_with_audio_id(tonielist: &Vec<Tonie>, audio_id: u32) -> (r: Option<Tonie>)
    ensures
        catalog_attach(r, audio_id, tonielist@),
        r is Some <==> catalog_has_audio_id(tonielist@, audio_id),
{
    let mut i: usize = 0;
    while i < tonielist.len()
        invariant
            i <= tonielist@.len(),
            forall|x: int| 0 <= x < i ==> !tonie_has_audio_id(#[trigger] tonielist@[x], audio_id),
        decreases tonielist@.len() - i,
    {
        if tonie_matches(&tonielist[i], audio_id) {
            return Some(clone_tonie(&tonielist[i]));
        }
        i += 1;
    }
    None
}

} // verus!
