//! The band library: every song the player has seen, the songs of each band,
//! and the order the whole library is listed in.
use vstd::prelude::*;
use crate::library::{band_of, band_of_file, band_of_spec};
use crate::paths::{file_name, file_name_of};
use crate::order::{sort_songs, sort_songs_spec, sort_with_keys, sorted_by, SortKey, vw};
use vstd::hash_set::StringHashSet;
use crate::playlist::{find_path, index_in, lemma_index_in};
use crate::text::{chars_of, lowercase, lowercase_chars, seq_eq, string_of};
use crate::video::views;

verus! {

/// Bands and their songs, as text.
pub type BandEntries = Seq<(Seq<char>, Seq<Seq<char>>)>;

/// The first entry of band `b`.
pub open spec fn band_index(bands: BandEntries, b: Seq<char>) -> Option<int>
    decreases bands.len(),
{
    if bands.len() == 0 {
        None
    } else if bands[0].0 == b {
        Some(0)
    } else {
        match band_index(bands.drop_first(), b) {
            Some(i) => Some(i + 1),
            None => None,
        }
    }
}

pub proof fn lemma_band_index(bands: BandEntries, b: Seq<char>)
    ensures
        band_index(bands, b) matches Some(i) ==> 0 <= i < bands.len() && bands[i].0 == b
            && forall|j: int| 0 <= j < i ==> bands[j].0 != b,
        band_index(bands, b) is None ==> forall|j: int| 0 <= j < bands.len() ==> bands[j].0 != b,
    decreases bands.len(),
{
    if bands.len() > 0 && bands[0].0 != b {
        lemma_band_index(bands.drop_first(), b);
        assert forall|j: int| 1 <= j < bands.len() implies bands.drop_first()[j - 1] == bands[j] by {}
    }
}

/// The library and bands after filing song `f` under band `b`: the song joins
/// the library and the band (each once); an empty band name files nothing.
pub open spec fn filed(v: (Seq<Seq<char>>, BandEntries), b: Seq<char>, f: Seq<char>) -> (
    Seq<Seq<char>>,
    BandEntries,
) {
    if b.len() == 0 {
        v
    } else {
        (
            if v.0.contains(f) {
                v.0
            } else {
                v.0.push(f)
            },
            match band_index(v.1, b) {
                Some(i) => if v.1[i].1.contains(f) {
                    v.1
                } else {
                    v.1.update(i, (b, v.1[i].1.push(f)))
                },
                None => v.1.push((b, seq![f])),
            },
        )
    }
}

/// The text of an optional string slice.
pub open spec fn opt_text(o: Option<&str>) -> Option<Seq<char>> {
    match o {
        Some(s) => Some(s@),
        None => None,
    }
}

/// The band a file is filed under: the group given, else the band read from
/// its folder name.
pub open spec fn band_for(group: Option<Seq<char>>, f: Seq<char>) -> Seq<char> {
    match group {
        Some(g) => g,
        None => band_of_spec(f),
    }
}

/// Library and bands after filing each of `files[i]` under `bands[i]`, and
/// whether any filing changed them.
pub open spec fn ingested(v: (Seq<Seq<char>>, BandEntries), files: Seq<Seq<char>>, bands: Seq<
    Seq<char>,
>) -> ((Seq<Seq<char>>, BandEntries), bool)
    decreases files.len(),
{
    if files.len() == 0 {
        (v, false)
    } else {
        let (w, c) = ingested(v, files.drop_last(), bands);
        let w2 = filed(w, bands[files.len() - 1], files.last());
        (w2, c || w2 != w)
    }
}

/// The library after an ingest: sorted again when anything changed.
pub open spec fn after_ingest(r: ((Seq<Seq<char>>, BandEntries), bool)) -> (Seq<Seq<char>>, BandEntries) {
    if r.1 {
        sorted_all(r.0)
    } else {
        r.0
    }
}

/// Library and each band's songs in library order.
pub open spec fn sorted_all(v: (Seq<Seq<char>>, BandEntries)) -> (Seq<Seq<char>>, BandEntries) {
    (
        sort_songs_spec(v.0),
        v.1.map_values(|e: (Seq<char>, Seq<Seq<char>>)| (e.0, sort_songs_spec(e.1))),
    )
}

/// Band and song pairs.
pub type SongPairs = Seq<(Seq<char>, Seq<char>)>;

/// Some pair already holds song `s`.
pub open spec fn has_song(ps: SongPairs, s: Seq<char>) -> bool {
    exists|k: int| 0 <= k < ps.len() && (#[trigger] ps[k]).1 == s
}

/// The pairs with `(b, s)` added, unless song `s` is already listed.
pub open spec fn add_pair(ps: SongPairs, b: Seq<char>, s: Seq<char>) -> SongPairs {
    if has_song(ps, s) {
        ps
    } else {
        ps.push((b, s))
    }
}

/// The pairs with each of `songs` added under band `b`.
pub open spec fn add_band_songs(ps: SongPairs, b: Seq<char>, songs: Seq<Seq<char>>) -> SongPairs
    decreases songs.len(),
{
    if songs.len() == 0 {
        ps
    } else {
        add_pair(add_band_songs(ps, b, songs.drop_last()), b, songs.last())
    }
}

/// The pairs with the songs of the bands at `order` added, band after band,
/// each band's songs in library order.
pub open spec fn add_bands(ps: SongPairs, bands: BandEntries, order: Seq<usize>) -> SongPairs
    decreases order.len(),
{
    if order.len() == 0 {
        ps
    } else {
        let e = bands[order.last() as int];
        add_band_songs(add_bands(ps, bands, order.drop_last()), e.0, sort_songs_spec(e.1))
    }
}

/// The pairs with each of `lib` added under the band its folder names.
pub open spec fn add_loose(ps: SongPairs, lib: Seq<Seq<char>>) -> SongPairs
    decreases lib.len(),
{
    if lib.len() == 0 {
        ps
    } else {
        add_pair(add_loose(ps, lib.drop_last()), band_of_spec(lib.last()), lib.last())
    }
}

/// The order bands are listed in: by lower-cased name.
pub open spec fn band_order(bands: BandEntries) -> Seq<usize> {
    sorted_by(
        Seq::new(bands.len(), |i: int| i as usize),
        |i: usize| (lowercase(bands[i as int].0), Seq::<char>::empty()),
    )
}

/// The key of a band and song pair: the lower-cased band name.
pub open spec fn pair_key(p: (Seq<char>, Seq<char>)) -> SortKey {
    (lowercase(p.0), Seq::<char>::empty())
}

/// Every song of the library once, grouped by band, bands by lower-cased
/// name, each band's songs in library order, songs that no band lists under
/// the band their folder names.
pub open spec fn all_songs_spec(v: (Seq<Seq<char>>, BandEntries)) -> Seq<Seq<char>> {
    let ps = add_loose(add_bands(Seq::empty(), v.1, band_order(v.1)), v.0);
    sorted_by(ps, |p: (Seq<char>, Seq<char>)| pair_key(p)).map_values(
        |p: (Seq<char>, Seq<char>)| p.1,
    )
}

/// A file of a scanned folder lies deeper than the folder itself: `rel`,
/// its path below the folder as components, is not a single name.
pub open spec fn is_nested(rel: Option<Seq<Seq<char>>>) -> bool {
    match rel {
        Some(c) => c.len() != 1,
        None => true,
    }
}

/// How many of the files lie deeper than the folder.
pub open spec fn nested_count(rels: Seq<Option<Seq<Seq<char>>>>) -> nat
    decreases rels.len(),
{
    if rels.len() == 0 {
        0
    } else {
        nested_count(rels.drop_last()) + if is_nested(rels.last()) {
            1nat
        } else {
            0nat
        }
    }
}

/// A folder is a library (bands in subfolders) when most of its files lie in
/// subfolders.
pub open spec fn library_mode(rels: Seq<Option<Seq<Seq<char>>>>) -> bool {
    let n = nested_count(rels);
    n > 0 && n > rels.len() - n
}

/// The band of a scanned file: in a library, its first subfolder (songs
/// directly in the folder go by their file name); otherwise the folder's name.
pub open spec fn dir_band(root_name: Seq<char>, f: Seq<char>, rel: Option<Seq<Seq<char>>>, lib: bool) -> Seq<
    char,
> {
    if !lib {
        root_name
    } else if !is_nested(rel) {
        crate::library::band_of_file_spec(f)
    } else {
        match rel {
            Some(c) => if c.len() > 0 {
                c[0]
            } else {
                root_name
            },
            None => root_name,
        }
    }
}

pub open spec fn rel_views(v: Seq<Option<Vec<String>>>) -> Seq<Option<Seq<Seq<char>>>> {
    v.map_values(|o: Option<Vec<String>>| match o {
        Some(c) => Some(views(c@)),
        None => None,
    })
}

pub open spec fn entry_views(v: Seq<(String, Vec<String>)>) -> BandEntries {
    v.map_values(|e: (String, Vec<String>)| (e.0@, views(e.1@)))
}

/// A copy of a list of strings.
pub fn copy_strings(v: &Vec<String>) -> (r: Vec<String>)
    ensures
        views(r@) == views(v@),
{
    let mut r: Vec<String> = Vec::new();
    let mut i: usize = 0;
    while i < v.len()
        invariant
            i <= v.len(),
            r.len() == i,
            forall|j: int| 0 <= j < i ==> (#[trigger] r@[j])@ == v@[j]@,
        decreases v.len() - i,
    {
        r.push(v[i].clone());
        i += 1;
    }
    assert(views(r@) =~= views(v@));
    r
}

/// Every song the player has seen, and the songs of each band. The bands
/// are a list of entries rather than a map: the catalog is listed band by
/// band and saved whole, and vstd's string-keyed map offers no way to walk
/// its entries.
pub struct BandLibrary {
    library: Vec<String>,
    bands: Vec<(String, Vec<String>)>,
}

impl View for BandLibrary {
    type V = (Seq<Seq<char>>, BandEntries);

    closed spec fn view(&self) -> (Seq<Seq<char>>, BandEntries) {
        (views(self.library@), entry_views(self.bands@))
    }
}

impl BandLibrary {
    pub fn new() -> (r: BandLibrary)
        ensures
            r@ == (Seq::<Seq<char>>::empty(), BandEntries::empty()),
    {
        let r = BandLibrary { library: Vec::new(), bands: Vec::new() };
        assert(r@.0 =~= Seq::<Seq<char>>::empty());
        assert(r@.1 =~= BandEntries::empty());
        r
    }

    /// A library made of the songs `library` and the bands `bands`.
    pub fn from_parts(library: Vec<String>, bands: Vec<(String, Vec<String>)>) -> (r: BandLibrary)
        ensures
            r@ == (views(library@), entry_views(bands@)),
    {
        BandLibrary { library, bands }
    }

    /// The songs of the library.
    pub fn library(&self) -> (r: Vec<String>)
        ensures
            views(r@) == self@.0,
    {
        copy_strings(&self.library)
    }

    /// The bands with their songs.
    pub fn bands(&self) -> (r: Vec<(String, Vec<String>)>)
        ensures
            entry_views(r@) == self@.1,
    {
        let mut r: Vec<(String, Vec<String>)> = Vec::new();
        let mut i: usize = 0;
        while i < self.bands.len()
            invariant
                i <= self.bands.len(),
                r.len() == i,
                forall|j: int|
                    0 <= j < i ==> (#[trigger] r@[j]).0@ == self.bands@[j].0@ && views(r@[j].1@)
                        == views(self.bands@[j].1@),
            decreases self.bands.len() - i,
        {
            let e = (self.bands[i].0.clone(), copy_strings(&self.bands[i].1));
            r.push(e);
            i += 1;
        }
        assert(entry_views(r@) =~= entry_views(self.bands@));
        r
    }

    fn find_band(&self, b: &str) -> (r: Option<usize>)
        ensures
            r matches Some(i) ==> band_index(self@.1, b@) == Some(i as int) && i < self.bands.len(),
            r is None ==> band_index(self@.1, b@) is None,
    {
        let bv = chars_of(b);
        let mut i: usize = 0;
        proof {
            lemma_band_index(self@.1, b@);
        }
        while i < self.bands.len()
            invariant
                i <= self.bands.len(),
                bv@ == b@,
                forall|j: int| 0 <= j < i ==> self@.1[j].0 != b@,
            decreases self.bands.len() - i,
        {
            let e = chars_of(self.bands[i].0.as_str());
            assert(self@.1[i as int].0 == e@);
            if seq_eq(&e, &bv) {
                proof {
                    lemma_band_index(self@.1, b@);
                }
                return Some(i);
            }
            i += 1;
        }
        None
    }

    /// Files song `f` under band `b`; says whether the library changed.
    pub fn file(&mut self, b: &str, f: &str) -> (changed: bool)
        ensures
            final(self)@ == filed(old(self)@, b@, f@),
            changed == (final(self)@ != old(self)@),
    {
        let bv = chars_of(b);
        if bv.len() == 0 {
            return false;
        }
        let ghost v = self@;
        let mut changed = false;
        proof {
            lemma_index_in(v.0, f@);
        }
        match find_path(&self.library, f) {
            Some(k) => {
                assert(v.0[k as int] == f@);
            },
            None => {
                self.library.push(f.to_string());
                assert(views(self.library@) =~= v.0.push(f@));
                assert(views(self.library@).len() != v.0.len());
                changed = true;
            },
        }
        let ghost lib_after = self@.0;
        match self.find_band(b) {
            Some(i) => {
                let ghost list = v.1[i as int].1;
                proof {
                    lemma_index_in(list, f@);
                }
                match find_path(&self.bands[i].1, f) {
                    Some(k) => {
                        assert(list[k as int] == f@);
                    },
                    None => {
                        let mut songs = copy_strings(&self.bands[i].1);
                        songs.push(f.to_string());
                        let name = self.bands[i].0.clone();
                        let ghost old_bands = self.bands@;
                        self.bands.set(i, (name, songs));
                        proof {
                            assert(views(songs@) =~= list.push(f@));
                            lemma_band_index(v.1, b@);
                            assert(old_bands[i as int].0@ == v.1[i as int].0);
                            assert(self@.1[i as int] == (name@, views(songs@)));
                            assert forall|j: int| 0 <= j < self.bands.len() implies #[trigger] self@.1[j]
                                == v.1.update(i as int, (b@, list.push(f@)))[j] by {
                                if j != i {
                                    assert(self.bands@[j] == old_bands[j]);
                                }
                            }
                            assert(self@.1 =~= v.1.update(i as int, (b@, list.push(f@))));
                            assert(self@.1[i as int].1.len() != v.1[i as int].1.len());
                        }
                        changed = true;
                    },
                }
            },
            None => {
                let mut songs: Vec<String> = Vec::new();
                songs.push(f.to_string());
                self.bands.push((b.to_string(), songs));
                proof {
                    assert(views(songs@) =~= seq![f@]);
                    assert(self@.1 =~= v.1.push((b@, seq![f@])));
                    assert(self@.1.len() != v.1.len());
                }
                changed = true;
            },
        }
        proof {
            assert(self@.0 == lib_after);
        }
        changed
    }

    /// Puts the library and each band's songs in library order.
    pub fn sort_all(&mut self)
        ensures
            final(self)@ == sorted_all(old(self)@),
    {
        let ghost v = self@;
        sort_songs(&mut self.library);
        let mut i: usize = 0;
        while i < self.bands.len()
            invariant
                i <= self.bands.len(),
                self.bands.len() == v.1.len(),
                views(self.library@) == sort_songs_spec(v.0),
                forall|j: int|
                    0 <= j < i ==> (#[trigger] self.bands@[j]).0@ == v.1[j].0 && views(
                        self.bands@[j].1@,
                    ) == sort_songs_spec(v.1[j].1),
                forall|j: int|
                    i <= j < self.bands.len() ==> (#[trigger] self.bands@[j]).0@ == v.1[j].0
                        && views(self.bands@[j].1@) == v.1[j].1,
            decreases self.bands.len() - i,
        {
            let mut songs = copy_strings(&self.bands[i].1);
            sort_songs(&mut songs);
            let name = self.bands[i].0.clone();
            let ghost before = self.bands@;
            self.bands.set(i, (name, songs));
            proof {
                assert forall|j: int| 0 <= j < self.bands.len() && j != i implies #[trigger] self.bands@[j]
                    == before[j] by {}
            }
            i += 1;
        }
        assert forall|j: int| 0 <= j < self.bands.len() implies #[trigger] self@.1[j] == sorted_all(
            v,
        ).1[j] by {
            assert(self@.1[j] == (self.bands@[j].0@, views(self.bands@[j].1@)));
        }
        assert(self@.1 =~= sorted_all(v).1);
    }

    /// Files `files[i]` under `bands[i]` for each `i`, then sorts when
    /// anything changed; says whether anything changed.
    fn file_all(&mut self, files: &Vec<String>, bands: &Vec<String>) -> (changed: bool)
        requires
            bands.len() == files.len(),
        ensures
            changed == ingested(old(self)@, views(files@), views(bands@)).1,
            final(self)@ == after_ingest(ingested(old(self)@, views(files@), views(bands@))),
    {
        let ghost start = self@;
        let ghost fs = views(files@);
        let ghost bs = views(bands@);
        let mut changed = false;
        let mut i: usize = 0;
        while i < files.len()
            invariant
                i <= files.len(),
                bands.len() == files.len(),
                fs == views(files@),
                bs == views(bands@),
                ingested(start, fs.take(i as int), bs) == (self@, changed),
            decreases files.len() - i,
        {
            assert(fs.take(i + 1).drop_last() =~= fs.take(i as int));
            assert(fs.take(i + 1).last() == files@[i as int]@);
            assert(bs[i as int] == bands@[i as int]@);
            let c = self.file(bands[i].as_str(), files[i].as_str());
            changed = changed || c;
            i += 1;
        }
        assert(fs.take(files.len() as int) =~= fs);
        if changed {
            self.sort_all();
        }
        changed
    }

    /// Files each of `files` under `group`, or under the band its folder
    /// names when there is no group; when anything changed the library and
    /// bands are put back in library order. Says whether anything changed.
    pub fn ingest_bands(&mut self, files: &Vec<String>, group: Option<&str>) -> (changed: bool)
        ensures
            ({
                let r = ingested(
                    old(self)@,
                    views(files@),
                    views(files@).map_values(|f: Seq<char>| band_for(opt_text(group), f)),
                );
                &&& changed == r.1
                &&& final(self)@ == after_ingest(r)
            }),
    {
        let mut bands: Vec<String> = Vec::new();
        let mut i: usize = 0;
        while i < files.len()
            invariant
                i <= files.len(),
                bands.len() == i,
                forall|t: int|
                    0 <= t < i ==> (#[trigger] bands@[t])@ == band_for(opt_text(group), files@[t]@),
            decreases files.len() - i,
        {
            let b = match group {
                Some(g) => g.to_string(),
                None => band_of(files[i].as_str()),
            };
            bands.push(b);
            i += 1;
        }
        assert(views(bands@) =~= views(files@).map_values(
            |f: Seq<char>| band_for(opt_text(group), f),
        ));
        self.file_all(files, &bands)
    }

    /// Files the songs of a scanned folder `dir`: `rels[i]` is the path of
    /// `files[i]` below the folder as components (`None` when it does not
    /// lie below it). In a folder whose files mostly lie in subfolders, each
    /// song goes under its first subfolder (songs directly in the folder go
    /// by their file name); otherwise every song goes under the folder's
    /// name. Says whether anything changed.
    pub fn ingest_dir(&mut self, dir: &str, files: &Vec<String>, rels: &Vec<Option<Vec<String>>>) -> (changed: bool)
        requires
            rels.len() == files.len(),
        ensures
            ({
                let root_name = match file_name(dir@) {
                    Some(n) => n,
                    None => Seq::<char>::empty(),
                };
                let rv = rel_views(rels@);
                let lib = library_mode(rv);
                let r = ingested(
                    old(self)@,
                    views(files@),
                    Seq::new(
                        files.len() as nat,
                        |i: int| dir_band(root_name, files@[i]@, rv[i], lib),
                    ),
                );
                &&& changed == r.1
                &&& final(self)@ == after_ingest(r)
            }),
    {
        let ghost rv = rel_views(rels@);
        let root_name = match file_name_of(&chars_of(dir)) {
            Some(n) => n,
            None => Vec::new(),
        };
        let n = files.len();
        let mut nested: usize = 0;
        let mut i: usize = 0;
        while i < n
            invariant
                i <= n,
                n == files.len(),
                n == rels.len(),
                rv == rel_views(rels@),
                nested == nested_count(rv.take(i as int)),
                nested <= i,
            decreases n - i,
        {
            assert(rv.take(i + 1).drop_last() =~= rv.take(i as int));
            let is_n = match &rels[i] {
                Some(c) => c.len() != 1,
                None => true,
            };
            assert(is_n == is_nested(rv[i as int]));
            if is_n {
                nested += 1;
            }
            i += 1;
        }
        assert(rv.take(n as int) =~= rv);
        let lib = nested > 0 && nested > n - nested;
        let ghost name_v = root_name@;
        let mut bands: Vec<String> = Vec::new();
        let mut k: usize = 0;
        while k < n
            invariant
                k <= n,
                n == files.len(),
                n == rels.len(),
                rv == rel_views(rels@),
                lib == library_mode(rv),
                name_v == root_name@,
                bands.len() == k,
                forall|t: int|
                    0 <= t < k ==> (#[trigger] bands@[t])@ == dir_band(name_v, files@[t]@, rv[t], lib),
            decreases n - k,
        {
            let b: String = if !lib {
                string_of(&root_name)
            } else {
                match &rels[k] {
                    Some(c) => {
                        if c.len() == 1 {
                            band_of_file(files[k].as_str())
                        } else if c.len() > 0 {
                            c[0].clone()
                        } else {
                            string_of(&root_name)
                        }
                    },
                    None => string_of(&root_name),
                }
            };
            proof {
                assert(rv[k as int] == match rels@[k as int] {
                    Some(c) => Some(views(c@)),
                    None => None::<Seq<Seq<char>>>,
                });
            }
            bands.push(b);
            k += 1;
        }
        proof {
            assert(views(bands@) =~= Seq::new(
                files.len() as nat,
                |i: int| dir_band(name_v, files@[i]@, rv[i], lib),
            ));
        }
        self.file_all(files, &bands)
    }

    /// The songs of band `b` in library order; none for a band not in the library.
    pub fn songs_of(&self, b: &str) -> (r: Vec<String>)
        ensures
            views(r@) == match band_index(self@.1, b@) {
                Some(i) => sort_songs_spec(self@.1[i].1),
                None => Seq::<Seq<char>>::empty(),
            },
    {
        match self.find_band(b) {
            Some(i) => {
                let mut songs = copy_strings(&self.bands[i].1);
                sort_songs(&mut songs);
                songs
            },
            None => {
                let r: Vec<String> = Vec::new();
                assert(views(r@) =~= Seq::<Seq<char>>::empty());
                r
            },
        }
    }

    /// Adds `(b, s)` to the pairs unless `s` was seen.
    fn add_pair_exec(pairs: &mut Vec<(String, String)>, seen: &mut StringHashSet, b: &String, s: &String)
        requires
            old(seen)@ == Set::new(|t: Seq<char>| has_song(vw(old(pairs)@), t)),
        ensures
            vw(final(pairs)@) == add_pair(vw(old(pairs)@), b@, s@),
            final(seen)@ == Set::new(|t: Seq<char>| has_song(vw(final(pairs)@), t)),
    {
        let ghost before = vw(pairs@);
        if seen.insert(s.clone()) {
            pairs.push((b.clone(), s.clone()));
            proof {
                assert(vw(pairs@) =~= before.push((b@, s@)));
                assert(!has_song(before, s@));
                let after = vw(pairs@);
                assert(seen@ =~= Set::new(|t: Seq<char>| has_song(after, t))) by {
                    assert forall|t: Seq<char>| has_song(after, t) implies seen@.contains(t) by {
                        let k = choose|k: int| 0 <= k < after.len() && (#[trigger] after[k]).1 == t;
                        if k < before.len() {
                            assert(after[k] == before[k]);
                            assert(has_song(before, t));
                        }
                    }
                    assert forall|t: Seq<char>| seen@.contains(t) implies has_song(after, t) by {
                        if t == s@ {
                            assert(after[before.len() as int].1 == t);
                        } else {
                            assert(has_song(before, t));
                            let k = choose|k: int| 0 <= k < before.len() && (#[trigger] before[k]).1 == t;
                            assert(after[k] == before[k]);
                        }
                    }
                }
            }
        } else {
            proof {
                assert(has_song(before, s@));
                assert(seen@ =~= old(seen)@);
            }
        }
    }

    /// The whole library in listing order: every song once, grouped by band,
    /// bands by lower-cased name, each band's songs in library order, songs
    /// that no band lists under the band their folder names.
    pub fn all_songs_ordered(&self) -> (r: Vec<String>)
        ensures
            views(r@) == all_songs_spec(self@),
    {
        let ghost v = self@;
        let ghost bv = v.1;
        let n = self.bands.len();
        let mut idx: Vec<usize> = Vec::new();
        let mut keys: Vec<(Vec<char>, Vec<char>)> = Vec::new();
        let mut i: usize = 0;
        while i < n
            invariant
                i <= n,
                n == self.bands.len(),
                bv == self@.1,
                idx.len() == i,
                keys.len() == i,
                forall|t: int| 0 <= t < i ==> #[trigger] idx@[t] == t as usize,
                forall|t: int|
                    0 <= t < i ==> (#[trigger] keys@[t].0@, keys@[t].1@) == (
                        lowercase(bv[idx@[t] as int].0),
                        Seq::<char>::empty(),
                    ),
            decreases n - i,
        {
            idx.push(i);
            let name = chars_of(self.bands[i].0.as_str());
            let lc = lowercase_chars(&name);
            let e: Vec<char> = Vec::new();
            keys.push((lc, e));
            proof {
                assert(bv[i as int].0 == self.bands@[i as int].0@);
                assert(keys@[i as int].1@ =~= Seq::<char>::empty());
            }
            i += 1;
        }
        assert(vw(idx@) =~= Seq::new(n as nat, |t: int| t as usize));
        let order = sort_with_keys(
            idx,
            keys,
            Ghost(|t: usize| (lowercase(bv[t as int].0), Seq::<char>::empty())),
        );
        let ghost ord = vw(order@);
        assert(ord == band_order(bv));
        proof {
            crate::order::sort_orders_and_keeps(
                Seq::new(n as nat, |t: int| t as usize),
                |t: usize| (lowercase(bv[t as int].0), Seq::<char>::empty()),
            );
            assert forall|k: int| 0 <= k < ord.len() implies (#[trigger] ord[k]) < n by {
                let s0 = Seq::new(n as nat, |t: int| t as usize);
                assert(s0.to_multiset().count(ord[k]) > 0) by {
                    vstd::seq_lib::to_multiset_contains(ord, ord[k]);
                    vstd::seq_lib::to_multiset_contains(s0, ord[k]);
                    assert(ord.contains(ord[k]));
                }
                vstd::seq_lib::to_multiset_contains(s0, ord[k]);
            }
        }
        let mut pairs: Vec<(String, String)> = Vec::new();
        let mut seen = StringHashSet::new();
        assert(seen@ =~= Set::new(|t: Seq<char>| has_song(vw(pairs@), t)));
        assert(vw(pairs@) =~= SongPairs::empty());
        let mut k: usize = 0;
        while k < order.len()
            invariant
                k <= order.len(),
                ord == vw(order@),
                n == self.bands.len(),
                bv == self@.1,
                forall|j: int| 0 <= j < ord.len() ==> (#[trigger] ord[j]) < n,
                seen@ == Set::new(|t: Seq<char>| has_song(vw(pairs@), t)),
                vw(pairs@) == add_bands(SongPairs::empty(), bv, ord.take(k as int)),
            decreases order.len() - k,
        {
            let bi = order[k];
            assert(ord[k as int] == bi);
            let mut songs = copy_strings(&self.bands[bi].1);
            sort_songs(&mut songs);
            let name = self.bands[bi].0.clone();
            assert(name@ == bv[bi as int].0);
            assert(views(songs@) == sort_songs_spec(bv[bi as int].1));
            let ghost base = vw(pairs@);
            let ghost sv = views(songs@);
            let mut t: usize = 0;
            while t < songs.len()
                invariant
                    t <= songs.len(),
                    sv == views(songs@),
                        seen@ == Set::new(|x: Seq<char>| has_song(vw(pairs@), x)),
                    vw(pairs@) == add_band_songs(base, name@, sv.take(t as int)),
                decreases songs.len() - t,
            {
                assert(sv.take(t + 1).drop_last() =~= sv.take(t as int));
                assert(sv.take(t + 1).last() == songs@[t as int]@);
                Self::add_pair_exec(&mut pairs, &mut seen, &name, &songs[t]);
                t += 1;
            }
            assert(sv.take(songs.len() as int) =~= sv);
            assert(ord.take(k + 1).drop_last() =~= ord.take(k as int));
            assert(ord.take(k + 1).last() == bi);
            k += 1;
        }
        assert(ord.take(order.len() as int) =~= ord);
        let ghost banded = vw(pairs@);
        let lib = &self.library;
        let ghost lv = views(lib@);
        let mut t: usize = 0;
        while t < lib.len()
            invariant
                t <= lib.len(),
                lv == views(lib@),
                seen@ == Set::new(|x: Seq<char>| has_song(vw(pairs@), x)),
                vw(pairs@) == add_loose(banded, lv.take(t as int)),
            decreases lib.len() - t,
        {
            assert(lv.take(t + 1).drop_last() =~= lv.take(t as int));
            assert(lv.take(t + 1).last() == lib@[t as int]@);
            let b = band_of(lib[t].as_str());
            Self::add_pair_exec(&mut pairs, &mut seen, &b, &lib[t]);
            t += 1;
        }
        assert(lv.take(lib.len() as int) =~= lv);
        let ghost ps = vw(pairs@);
        let mut pkeys: Vec<(Vec<char>, Vec<char>)> = Vec::new();
        let mut j: usize = 0;
        while j < pairs.len()
            invariant
                j <= pairs.len(),
                pkeys.len() == j,
                forall|q: int|
                    0 <= q < j ==> (#[trigger] pkeys@[q].0@, pkeys@[q].1@) == pair_key(pairs@[q]@),
            decreases pairs.len() - j,
        {
            let bc = chars_of(pairs[j].0.as_str());
            let lc = lowercase_chars(&bc);
            let e: Vec<char> = Vec::new();
            pkeys.push((lc, e));
            assert(pkeys@[j as int].1@ =~= Seq::<char>::empty());
            j += 1;
        }
        let sorted = sort_with_keys(pairs, pkeys, Ghost(|p: (Seq<char>, Seq<char>)| pair_key(p)));
        let mut r: Vec<String> = Vec::new();
        let mut q: usize = 0;
        while q < sorted.len()
            invariant
                q <= sorted.len(),
                r.len() == q,
                forall|x: int| 0 <= x < q ==> (#[trigger] r@[x])@ == sorted@[x].1@,
            decreases sorted.len() - q,
        {
            r.push(sorted[q].1.clone());
            q += 1;
        }
        assert(views(r@) =~= vw(sorted@).map_values(|p: (Seq<char>, Seq<char>)| p.1));
        r
    }

    /// Forgets every band and song.
    pub fn clear(&mut self)
        ensures
            final(self)@ == (Seq::<Seq<char>>::empty(), BandEntries::empty()),
    {
        self.library = Vec::new();
        self.bands = Vec::new();
        assert(self@.0 =~= Seq::<Seq<char>>::empty());
        assert(self@.1 =~= BandEntries::empty());
    }
}

/// No two pairs hold the same song.
pub open spec fn songs_distinct(ps: SongPairs) -> bool {
    forall|i: int, j: int| 0 <= i < j < ps.len() ==> (#[trigger] ps[i]).1 != (#[trigger] ps[j]).1
}

proof fn lemma_add_pair(ps: SongPairs, b: Seq<char>, s: Seq<char>)
    requires
        songs_distinct(ps),
    ensures
        songs_distinct(add_pair(ps, b, s)),
        has_song(add_pair(ps, b, s), s),
        forall|t: Seq<char>| has_song(ps, t) ==> has_song(add_pair(ps, b, s), t),
{
    let r = add_pair(ps, b, s);
    if !has_song(ps, s) {
        assert(r[ps.len() as int].1 == s);
        assert forall|t: Seq<char>| has_song(ps, t) implies has_song(r, t) by {
            let k = choose|k: int| 0 <= k < ps.len() && (#[trigger] ps[k]).1 == t;
            assert(r[k] == ps[k]);
        }
        assert forall|i: int, j: int| 0 <= i < j < r.len() implies (#[trigger] r[i]).1 != (
        #[trigger] r[j]).1 by {
            assert(r[i] == ps[i]);
            if j < ps.len() {
                assert(r[j] == ps[j]);
            } else {
                if r[i].1 == s {
                    assert(has_song(ps, s));
                }
            }
        }
    }
}

proof fn lemma_add_band_songs(ps: SongPairs, b: Seq<char>, songs: Seq<Seq<char>>)
    requires
        songs_distinct(ps),
    ensures
        songs_distinct(add_band_songs(ps, b, songs)),
        forall|t: Seq<char>| has_song(ps, t) ==> has_song(add_band_songs(ps, b, songs), t),
        forall|t: Seq<char>| songs.contains(t) ==> has_song(add_band_songs(ps, b, songs), t),
    decreases songs.len(),
{
    if songs.len() > 0 {
        let pre = add_band_songs(ps, b, songs.drop_last());
        lemma_add_band_songs(ps, b, songs.drop_last());
        lemma_add_pair(pre, b, songs.last());
        assert forall|t: Seq<char>| songs.contains(t) implies has_song(
            add_band_songs(ps, b, songs),
            t,
        ) by {
            let k = choose|k: int| 0 <= k < songs.len() && songs[k] == t;
            if k < songs.len() - 1 {
                assert(songs.drop_last()[k] == t);
                assert(songs.drop_last().contains(t));
                assert(has_song(pre, t));
            } else {
                assert(t == songs.last());
            }
        }
    }
}

proof fn lemma_add_bands(ps: SongPairs, bands: BandEntries, order: Seq<usize>)
    requires
        songs_distinct(ps),
        forall|k: int| 0 <= k < order.len() ==> (#[trigger] order[k]) < bands.len(),
    ensures
        songs_distinct(add_bands(ps, bands, order)),
        forall|t: Seq<char>| has_song(ps, t) ==> has_song(add_bands(ps, bands, order), t),
        forall|k: int, t: Seq<char>|
            0 <= k < order.len() && sort_songs_spec(bands[order[k] as int].1).contains(t)
                ==> has_song(add_bands(ps, bands, order), t),
    decreases order.len(),
{
    if order.len() > 0 {
        let pre = add_bands(ps, bands, order.drop_last());
        lemma_add_bands(ps, bands, order.drop_last());
        let e = bands[order.last() as int];
        lemma_add_band_songs(pre, e.0, sort_songs_spec(e.1));
        assert forall|k: int, t: Seq<char>|
            0 <= k < order.len() && sort_songs_spec(bands[order[k] as int].1).contains(t)
            implies has_song(add_bands(ps, bands, order), t) by {
            if k < order.len() - 1 {
                assert(order.drop_last()[k] == order[k]);
            }
        }
    }
}

proof fn lemma_add_loose(ps: SongPairs, lib: Seq<Seq<char>>)
    requires
        songs_distinct(ps),
    ensures
        songs_distinct(add_loose(ps, lib)),
        forall|t: Seq<char>| has_song(ps, t) ==> has_song(add_loose(ps, lib), t),
        forall|t: Seq<char>| lib.contains(t) ==> has_song(add_loose(ps, lib), t),
    decreases lib.len(),
{
    if lib.len() > 0 {
        let pre = add_loose(ps, lib.drop_last());
        lemma_add_loose(ps, lib.drop_last());
        lemma_add_pair(pre, band_of_spec(lib.last()), lib.last());
        assert forall|t: Seq<char>| lib.contains(t) implies has_song(add_loose(ps, lib), t) by {
            let k = choose|k: int| 0 <= k < lib.len() && lib[k] == t;
            if k < lib.len() - 1 {
                assert(lib.drop_last()[k] == t);
                assert(lib.drop_last().contains(t));
                assert(has_song(pre, t));
            } else {
                assert(t == lib.last());
            }
        }
    }
}

/// Sorting keeps exactly the entries it is given.
pub proof fn lemma_sorted_same_entries<V>(s: Seq<V>, key: spec_fn(V) -> SortKey)
    ensures
        forall|x: V| sorted_by(s, key).contains(x) <==> s.contains(x),
        sorted_by(s, key).len() == s.len(),
    decreases s.len(),
{
    if s.len() > 0 {
        let t = sorted_by(s.drop_last(), key);
        lemma_sorted_same_entries(s.drop_last(), key);
        crate::order::lemma_ins_pos(t, s.last(), key);
        let p = crate::order::ins_pos(t, s.last(), key);
        let r = t.insert(p, s.last());
        assert forall|x: V| r.contains(x) <==> s.contains(x) by {
            if r.contains(x) {
                let k = choose|k: int| 0 <= k < r.len() && r[k] == x;
                if k != p {
                    if k < p {
                        assert(t[k] == x);
                    } else {
                        assert(t[k - 1] == x);
                    }
                    assert(t.contains(x));
                    assert(sorted_by(s.drop_last(), key).contains(x));
                    assert(s.drop_last().contains(x));
                    let m = choose|m: int| 0 <= m < s.drop_last().len() && s.drop_last()[m] == x;
                    assert(s[m] == x);
                } else {
                    assert(s[s.len() - 1] == x);
                }
            }
            if s.contains(x) {
                let m = choose|m: int| 0 <= m < s.len() && s[m] == x;
                if m < s.len() - 1 {
                    assert(s.drop_last()[m] == x);
                    assert(s.drop_last().contains(x));
                    assert(sorted_by(s.drop_last(), key).contains(x));
                    assert(t.contains(x));
                    let k = choose|k: int| 0 <= k < t.len() && t[k] == x;
                    if k < p {
                        assert(r[k] == x);
                    } else {
                        assert(r[k + 1] == x);
                    }
                } else {
                    assert(r[p] == x);
                }
            }
        }
    }
}

proof fn lemma_sorted_songs_distinct(s: SongPairs, key: spec_fn((Seq<char>, Seq<char>)) -> SortKey)
    requires
        songs_distinct(s),
    ensures
        songs_distinct(sorted_by(s, key)),
    decreases s.len(),
{
    if s.len() > 0 {
        let t = sorted_by(s.drop_last(), key);
        assert(songs_distinct(s.drop_last())) by {
            assert forall|i: int, j: int| 0 <= i < j < s.drop_last().len() implies (
            #[trigger] s.drop_last()[i]).1 != (#[trigger] s.drop_last()[j]).1 by {
                assert(s.drop_last()[i] == s[i]);
                assert(s.drop_last()[j] == s[j]);
            }
        }
        lemma_sorted_songs_distinct(s.drop_last(), key);
        lemma_sorted_same_entries(s.drop_last(), key);
        crate::order::lemma_ins_pos(t, s.last(), key);
        let p = crate::order::ins_pos(t, s.last(), key);
        let x = s.last();
        let r = t.insert(p, x);
        assert forall|i: int| 0 <= i < t.len() implies (#[trigger] t[i]).1 != x.1 by {
            assert(t.contains(t[i]));
            assert(s.drop_last().contains(t[i]));
            let m = choose|m: int| 0 <= m < s.drop_last().len() && s.drop_last()[m] == t[i];
            assert(s[m] == t[i]);
            assert(s[m].1 != s[s.len() - 1].1);
        }
        assert forall|i: int, j: int| 0 <= i < j < r.len() implies (#[trigger] r[i]).1 != (
        #[trigger] r[j]).1 by {
            if i < p && j < p {
                assert(r[i] == t[i] && r[j] == t[j]);
            } else if i < p && j == p {
                assert(r[i] == t[i]);
            } else if i < p {
                assert(r[i] == t[i] && r[j] == t[j - 1]);
            } else if i == p {
                assert(r[j] == t[j - 1]);
            } else {
                assert(r[i] == t[i - 1] && r[j] == t[j - 1]);
            }
        }
    }
}

/// Listing the whole library names every song once: each song of the
/// library and of every band appears, and none appears twice.
pub proof fn all_songs_each_once(v: (Seq<Seq<char>>, BandEntries))
    requires
        v.1.len() <= usize::MAX,
    ensures
        all_songs_spec(v).no_duplicates(),
        forall|s: Seq<char>| v.0.contains(s) ==> all_songs_spec(v).contains(s),
        forall|i: int, s: Seq<char>|
            0 <= i < v.1.len() && v.1[i].1.contains(s) ==> all_songs_spec(v).contains(s),
{
    let bands = v.1;
    let n = bands.len();
    let ident = Seq::new(n as nat, |i: int| i as usize);
    let bkey = |i: usize| (lowercase(bands[i as int].0), Seq::<char>::empty());
    let order = band_order(bands);
    lemma_sorted_same_entries(ident, bkey);
    assert forall|k: int| 0 <= k < order.len() implies (#[trigger] order[k]) < n by {
        assert(order.contains(order[k]));
        assert(ident.contains(order[k]));
        let i = choose|i: int| 0 <= i < ident.len() && ident[i] == order[k];
        assert(ident[i] == i as usize);
    }
    let e = SongPairs::empty();
    let p0 = add_bands(e, bands, order);
    lemma_add_bands(e, bands, order);
    let ps = add_loose(p0, v.0);
    lemma_add_loose(p0, v.0);
    let pk = |p: (Seq<char>, Seq<char>)| pair_key(p);
    let sorted = sorted_by(ps, pk);
    lemma_sorted_songs_distinct(ps, pk);
    lemma_sorted_same_entries(ps, pk);
    let r = all_songs_spec(v);
    assert(r == sorted.map_values(|p: (Seq<char>, Seq<char>)| p.1));
    assert forall|i: int, j: int| 0 <= i < r.len() && 0 <= j < r.len() && i != j implies r[i]
        != r[j] by {
        if i < j {
            assert(sorted[i].1 != sorted[j].1);
        } else {
            assert(sorted[j].1 != sorted[i].1);
        }
    }
    assert forall|t: Seq<char>| has_song(ps, t) implies r.contains(t) by {
        let k = choose|k: int| 0 <= k < ps.len() && (#[trigger] ps[k]).1 == t;
        assert(ps.contains(ps[k]));
        assert(sorted.contains(ps[k]));
        let m = choose|m: int| 0 <= m < sorted.len() && sorted[m] == ps[k];
        assert(r[m] == t);
    }
    assert forall|i: int, s: Seq<char>| 0 <= i < v.1.len() && v.1[i].1.contains(s) implies r.contains(
        s,
    ) by {
        assert(ident[i] == i as usize);
        assert(ident.contains(i as usize));
        assert(order.contains(i as usize));
        let k = choose|k: int| 0 <= k < order.len() && order[k] == i as usize;
        lemma_sorted_same_entries(bands[i].1, |p: Seq<char>| crate::order::song_key(p));
        assert(sort_songs_spec(bands[i].1).contains(s));
        assert(bands[order[k] as int] == bands[i]);
        assert(sort_songs_spec(bands[order[k] as int].1).contains(s));
        assert(has_song(p0, s));
        assert(has_song(ps, s));
    }
}

/// Filing a song under a band puts it in the library and in that band, and
/// filing it there again changes nothing.
pub proof fn filing_files_once(v: (Seq<Seq<char>>, BandEntries), b: Seq<char>, f: Seq<char>)
    requires
        b.len() > 0,
    ensures
        filed(v, b, f).0.contains(f),
        band_index(filed(v, b, f).1, b) matches Some(i) && filed(v, b, f).1[i].1.contains(f),
        filed(filed(v, b, f), b, f) == filed(v, b, f),
{
    let w = filed(v, b, f);
    lemma_band_index(v.1, b);
    if !v.0.contains(f) {
        assert(w.0[v.0.len() as int] == f);
    }
    assert(w.0.contains(f));
    let i: int = match band_index(v.1, b) {
        Some(i) => i,
        None => v.1.len() as int,
    };
    match band_index(v.1, b) {
        Some(i0) => {
            if !v.1[i0].1.contains(f) {
                let l = v.1[i0].1.push(f);
                assert(l[l.len() - 1] == f);
                assert(w.1[i0] == (b, l));
            }
        },
        None => {
            let l: Seq<Seq<char>> = seq![f];
            assert(l[0] == f);
            assert(w.1[v.1.len() as int] == (b, l));
        },
    }
    assert(0 <= i < w.1.len());
    assert(w.1[i].0 == b);
    assert(w.1[i].1.contains(f));
    assert forall|j: int| 0 <= j < i implies w.1[j].0 != b by {
        assert(w.1[j] == v.1[j]);
    }
    lemma_band_index(w.1, b);
    match band_index(w.1, b) {
        Some(k) => {
            if k < i {
                assert(w.1[k].0 != b);
            }
            assert(k == i);
        },
        None => {
            assert(w.1[i].0 != b);
        },
    }
    assert(band_index(w.1, b) == Some(i));
    assert(filed(w, b, f).0 == w.0);
    assert(filed(w, b, f).1 == w.1);
}

} // verus!
