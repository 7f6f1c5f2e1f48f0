//! The embedding store: one feature vector per image, kept across runs.
//!
//! A feature vector is held as the bit patterns of its components. The
//! store never computes with them: it keeps them, hands them out, and
//! sees to it that all of them have the same length.

use vstd::prelude::*;
use vstd::string::*;
use crate::text::{contains_text, ends_with, has_suffix, texts};

verus! {

/// Components of a feature vector of the model.
pub const EMBEDDING_DIM: usize = 768;

/// Where the vector of an entry came from.
#[derive(Debug, Clone, Copy, PartialEq, Eq, Structural)]
pub enum Origin {
    /// Read from the persistent backing.
    Cached,
    /// Computed by the model in this run.
    Embedded,
}

/// The stored vector of one image.
#[derive(Debug)]
pub struct CacheEntry {
    /// Identifier of the image: the path it was found at.
    pub id: String,
    pub vector: Vec<u32>,
    pub origin: Origin,
}

/// Why the store refused a record.
#[derive(Debug, Clone, Copy, PartialEq, Eq, Structural)]
pub enum StoreError {
    /// The vector of the record at `index` has `found` components and the
    /// store holds vectors of `expected`.
    DimensionMismatch { index: usize, expected: usize, found: usize },
    /// The record at `index` repeats the identifier of an earlier record.
    DuplicateRecord { index: usize },
}

/// The vectors of the images that were embedded, by identifier.
#[derive(Debug)]
pub struct Store {
    pub dimension: usize,
    pub entries: Vec<CacheEntry>,
}

/// The records are those of a store for vectors of `dimension` components:
/// every vector has that length and no identifier occurs twice.
pub open spec fn consistent(dimension: usize, records: Seq<CacheEntry>) -> bool {
    &&& forall|i: int| 0 <= i < records.len() ==> (#[trigger] records[i]).vector.len() == dimension
    &&& forall|i: int, j: int|
        0 <= i < j < records.len() ==> (#[trigger] records[i]).id@ != (#[trigger] records[j]).id@
}

/// The first record that keeps `records` from being consistent: its vector
/// has the wrong length or an earlier record has its identifier.
pub open spec fn first_fault(dimension: usize, records: Seq<CacheEntry>, index: int) -> bool {
    &&& 0 <= index < records.len()
    &&& consistent(dimension, records.take(index))
    &&& !consistent(dimension, records.take(index + 1))
}

impl Store {
    /// Every vector has the store's dimension and every image one entry.
    pub open spec fn wf(&self) -> bool {
        consistent(self.dimension, self.entries@)
    }

    /// The store has a vector for `id`.
    pub open spec fn holds(&self, id: Seq<char>) -> bool {
        exists|i: int| 0 <= i < self.entries.len() && (#[trigger] self.entries[i]).id@ == id
    }

    /// The vector stored for `id`.
    pub open spec fn vector_of(&self, id: Seq<char>) -> Seq<u32> {
        let i = choose|i: int| 0 <= i < self.entries.len() && (#[trigger] self.entries[i]).id@ == id;
        self.entries[i].vector@
    }

    /// An entry with identifier `id` is the one that `holds` and
    /// `vector_of` speak of.
    pub proof fn lemma_entry(&self, i: int)
        requires
            self.wf(),
            0 <= i < self.entries.len(),
        ensures
            self.holds(self.entries[i].id@),
            self.vector_of(self.entries[i].id@) == self.entries[i].vector@,
            self@.dom().contains(self.entries[i].id@),
            self@[self.entries[i].id@] == self.entries[i].vector@,
    {
        let id = self.entries[i].id@;
        let j = choose|j: int| 0 <= j < self.entries.len() && (#[trigger] self.entries[j]).id@ == id;
        if i < j {
            assert(self.entries[i].id@ != self.entries[j].id@);
        } else if j < i {
            assert(self.entries[j].id@ != self.entries[i].id@);
        }
    }
}

impl View for Store {
    type V = Map<Seq<char>, Seq<u32>>;

    /// The store as a map from identifier to vector.
    open spec fn view(&self) -> Map<Seq<char>, Seq<u32>> {
        Map::new(|id: Seq<char>| self.holds(id), |id: Seq<char>| self.vector_of(id))
    }
}

impl Store {
    /// An empty store for vectors of `dimension` components.
    pub fn new(dimension: usize) -> (store: Store)
        ensures
            store.wf(),
            store.dimension == dimension,
            store.entries@.len() == 0,
            store@ == Map::<Seq<char>, Seq<u32>>::empty(),
    {
        let store = Store { dimension, entries: Vec::new() };
        assert(store@ =~= Map::<Seq<char>, Seq<u32>>::empty());
        store
    }

    /// Number of images with a vector.
    pub fn len(&self) -> (n: usize)
        ensures
            n == self.entries.len(),
    {
        self.entries.len()
    }

    /// Every entry of the store, in no order that a caller may rely on.
    pub fn get_all(&self) -> (entries: &Vec<CacheEntry>)
        ensures
            entries == self.entries,
    {
        &self.entries
    }

    /// The place of the entry of `id`, if the store has one.
    pub fn find(&self, id: &String) -> (place: Option<usize>)
        ensures
            match place {
                Some(i) => i < self.entries.len() && self.entries[i as int].id@ == id@ && forall|
                    j: int,
                |
                    0 <= j < i ==> (#[trigger] self.entries[j]).id@ != id@,
                None => !self.holds(id@),
            },
    {
        let mut i: usize = 0;
        while i < self.entries.len()
            invariant
                i <= self.entries.len(),
                forall|j: int| 0 <= j < i ==> (#[trigger] self.entries[j]).id@ != id@,
            decreases self.entries.len() - i,
        {
            if self.entries[i].id == *id {
                return Some(i);
            }
            i += 1;
        }
        None
    }

    /// The vector of image `id`, if the image was embedded.
    pub fn lookup(&self, id: &String) -> (vector: Option<&Vec<u32>>)
        requires
            self.wf(),
        ensures
            match vector {
                Some(v) => self@.dom().contains(id@) && v@ == self@[id@] && v.len()
                    == self.dimension,
                None => !self@.dom().contains(id@),
            },
    {
        match self.find(id) {
            Some(i) => {
                proof {
                    self.lemma_entry(i as int);
                }
                Some(&self.entries[i].vector)
            },
            None => None,
        }
    }

    /// Whether the store takes the vector: it has the store's dimension.
    pub fn admits(&self, vector: &Vec<u32>) -> (yes: bool)
        ensures
            yes == (vector.len() == self.dimension),
    {
        vector.len() == self.dimension
    }

    /// The image has no vector yet, so the model has to embed it.
    pub fn needs_embedding(&self, id: &String) -> (needed: bool)
        ensures
            needed == !self@.dom().contains(id@),
    {
        self.find(id).is_none()
    }
}

/// The path ends in the extension of an image format that can be read: a
/// dot and the name of the format.
pub open spec fn is_image_path(path: Seq<char>) -> bool {
    ||| has_suffix(path, ".jpg"@)
    ||| has_suffix(path, ".jpeg"@)
    ||| has_suffix(path, ".png"@)
    ||| has_suffix(path, ".tga"@)
    ||| has_suffix(path, ".bmp"@)
    ||| has_suffix(path, ".psd"@)
    ||| has_suffix(path, ".gif"@)
    ||| has_suffix(path, ".hdr"@)
    ||| has_suffix(path, ".pic"@)
    ||| has_suffix(path, ".ppm"@)
}

/// The image paths of a directory listing, in its order.
pub open spec fn image_paths(listing: Seq<Seq<char>>) -> Seq<Seq<char>>
    decreases listing.len(),
{
    if listing.len() == 0 {
        listing
    } else if is_image_path(listing.last()) {
        image_paths(listing.drop_last()).push(listing.last())
    } else {
        image_paths(listing.drop_last())
    }
}

/// Whether the file at `path` is taken for an image.
pub fn is_supported_image(path: &str) -> (yes: bool)
    ensures
        yes == is_image_path(path@),
{
    ends_with(path, ".jpg")
        || ends_with(path, ".jpeg")
        || ends_with(path, ".png")
        || ends_with(path, ".tga")
        || ends_with(path, ".bmp")
        || ends_with(path, ".psd")
        || ends_with(path, ".gif")
        || ends_with(path, ".hdr")
        || ends_with(path, ".pic")
        || ends_with(path, ".ppm")
}

/// The entries of a directory listing that are taken for images.
pub fn select_images(listing: &Vec<String>) -> (images: Vec<String>)
    ensures
        texts(images@) == image_paths(texts(listing@)),
{
    let mut images: Vec<String> = Vec::new();
    let mut i: usize = 0;
    while i < listing.len()
        invariant
            i <= listing.len(),
            texts(images@) == image_paths(texts(listing@).take(i as int)),
        decreases listing.len() - i,
    {
        proof {
            let all = texts(listing@);
            assert(all.take(i + 1).drop_last() =~= all.take(i as int));
            assert(all.take(i + 1).last() == listing[i as int]@);
        }
        let ghost before = texts(images@);
        if is_supported_image(listing[i].as_str()) {
            images.push(listing[i].clone());
            assert(texts(images@) =~= before.push(listing[i as int]@));
        }
        i += 1;
    }
    assert(texts(listing@).take(i as int) =~= texts(listing@));
    images
}

/// What came of embedding one image: its vector, or nothing where the
/// model failed on it.
#[derive(Debug)]
pub struct EmbedOutcome {
    pub id: String,
    pub vector: Option<Vec<u32>>,
}

impl View for EmbedOutcome {
    type V = (Seq<char>, Option<Seq<u32>>);

    open spec fn view(&self) -> (Seq<char>, Option<Seq<u32>>) {
        (
            self.id@,
            match self.vector {
                Some(v) => Some(v@),
                None => None,
            },
        )
    }
}

/// The outcomes of a sequence, each as a plain pair.
pub open spec fn outcome_views(outcomes: Seq<EmbedOutcome>) -> Seq<(Seq<char>, Option<Seq<u32>>)> {
    Seq::new(outcomes.len(), |i: int| outcomes[i]@)
}

/// The outcome brings a vector that a store of `dimension` takes.
pub open spec fn admissible(dimension: usize, outcome: (Seq<char>, Option<Seq<u32>>)) -> bool {
    outcome.1 matches Some(v) && v.len() == dimension
}

/// The contents of a store that held `held` after it took the outcomes in
/// order: each outcome with a vector of the right length sets the vector
/// of its image, every other outcome changes nothing.
pub open spec fn absorbed(
    held: Map<Seq<char>, Seq<u32>>,
    dimension: usize,
    outcomes: Seq<(Seq<char>, Option<Seq<u32>>)>,
) -> Map<Seq<char>, Seq<u32>>
    decreases outcomes.len(),
{
    if outcomes.len() == 0 {
        held
    } else {
        let before = absorbed(held, dimension, outcomes.drop_last());
        let last = outcomes.last();
        if admissible(dimension, last) {
            before.insert(last.0, last.1->0)
        } else {
            before
        }
    }
}

/// The images that still need a vector: those of `images` that are not in
/// `held`, each once, in the order in which they first occur.
pub open spec fn pending(held: Set<Seq<char>>, images: Seq<Seq<char>>) -> Seq<Seq<char>>
    decreases images.len(),
{
    if images.len() == 0 {
        images
    } else {
        let before = pending(held, images.drop_last());
        let last = images.last();
        if held.contains(last) || before.contains(last) {
            before
        } else {
            before.push(last)
        }
    }
}

/// The place of the first record of image `id`, or the number of records
/// where there is none.
pub open spec fn place_of(records: Seq<CacheEntry>, id: Seq<char>) -> int
    decreases records.len(),
{
    if records.len() == 0 || records[0].id@ == id {
        0
    } else {
        1 + place_of(records.drop_first(), id)
    }
}

/// The records after `entry` was put in: in the place of the record of
/// its image, or behind the last record where its image had none.
pub open spec fn placed(records: Seq<CacheEntry>, entry: CacheEntry) -> Seq<CacheEntry> {
    let at = place_of(records, entry.id@);
    if at < records.len() {
        records.update(at, entry)
    } else {
        records.push(entry)
    }
}

/// A place is among the records or right behind them.
pub proof fn lemma_place_bounds(records: Seq<CacheEntry>, id: Seq<char>)
    ensures
        0 <= place_of(records, id) <= records.len(),
    decreases records.len(),
{
    if records.len() > 0 && records[0].id@ != id {
        lemma_place_bounds(records.drop_first(), id);
    }
}

/// `place_of` is the first place with the identifier.
pub proof fn lemma_place_of(records: Seq<CacheEntry>, id: Seq<char>, at: int)
    requires
        0 <= at <= records.len(),
        forall|j: int| 0 <= j < at ==> (#[trigger] records[j]).id@ != id,
        at < records.len() ==> records[at].id@ == id,
    ensures
        place_of(records, id) == at,
    decreases records.len(),
{
    if at > 0 {
        let rest = records.drop_first();
        assert(records[0].id@ != id);
        assert forall|j: int| 0 <= j < at - 1 implies (#[trigger] rest[j]).id@ != id by {
            assert(rest[j] == records[j + 1]);
        }
        lemma_place_of(rest, id, at - 1);
    }
}

/// How many of the outcomes bring a vector that a store of `dimension`
/// takes.
pub open spec fn admissible_count(
    dimension: usize,
    outcomes: Seq<(Seq<char>, Option<Seq<u32>>)>,
) -> nat
    decreases outcomes.len(),
{
    if outcomes.len() == 0 {
        0
    } else {
        admissible_count(dimension, outcomes.drop_last()) + if admissible(
            dimension,
            outcomes.last(),
        ) {
            1nat
        } else {
            0nat
        }
    }
}

impl Store {
    /// Takes the vector of an image into the store; a vector that the
    /// image already had is replaced as a whole. The entry has to be in
    /// the persistent backing by now: the store itself writes nothing.
    ///
    /// A vector of another length than the store's is refused and the
    /// store stays as it was.
    pub fn insert(&mut self, entry: CacheEntry) -> (outcome: Result<(), StoreError>)
        requires
            old(self).wf(),
        ensures
            final(self).wf(),
            final(self).dimension == old(self).dimension,
            entry.vector.len() == old(self).dimension ==> outcome is Ok && final(self)@ == old(
                self)@.insert(entry.id@, entry.vector@) && final(self).entries@ == placed(
                old(self).entries@,
                entry,
            ),
            entry.vector.len() != old(self).dimension ==> *final(self) == *old(self) && outcome
                == Err::<(), StoreError>(
                StoreError::DimensionMismatch {
                    index: old(self).entries.len(),
                    expected: old(self).dimension,
                    found: entry.vector.len(),
                },
            ),
    {
        if entry.vector.len() != self.dimension {
            return Err(
                StoreError::DimensionMismatch {
                    index: self.entries.len(),
                    expected: self.dimension,
                    found: entry.vector.len(),
                },
            );
        }
        let ghost id = entry.id@;
        let ghost vector = entry.vector@;
        let ghost before = *self;
        match self.find(&entry.id) {
            Some(i) => {
                self.entries[i] = entry;
                proof {
                    lemma_place_of(before.entries@, id, i as int);
                    assert forall|a: int, b: int| 0 <= a < b < self.entries.len() implies (
                    #[trigger] self.entries[a]).id@ != (#[trigger] self.entries[b]).id@ by {
                        assert(before.entries[a].id@ != before.entries[b].id@);
                    }
                    assert forall|k: Seq<char>| self.holds(k) <==> before.holds(k) by {
                        if self.holds(k) {
                            let j = choose|j: int|
                                0 <= j < self.entries.len() && (#[trigger] self.entries[j]).id@
                                    == k;
                            assert(before.entries[j].id@ == k);
                        }
                        if before.holds(k) {
                            let j = choose|j: int|
                                0 <= j < before.entries.len() && (
                                #[trigger] before.entries[j]).id@ == k;
                            assert(self.entries[j].id@ == k);
                        }
                    }
                    before.lemma_entry(i as int);
                    assert forall|k: Seq<char>| self.holds(k) implies self@[k] == before@.insert(
                        id,
                        vector,
                    )[k] by {
                        let j = choose|j: int|
                            0 <= j < self.entries.len() && (#[trigger] self.entries[j]).id@ == k;
                        self.lemma_entry(j);
                        before.lemma_entry(j);
                    }
                    assert(self@ =~= before@.insert(id, vector));
                }
            },
            None => {
                self.entries.push(entry);
                proof {
                    let n = before.entries.len() as int;
                    lemma_place_of(before.entries@, id, n);
                    assert forall|a: int, b: int| 0 <= a < b < self.entries.len() implies (
                    #[trigger] self.entries[a]).id@ != (#[trigger] self.entries[b]).id@ by {
                        if b < n {
                            assert(before.entries[a].id@ != before.entries[b].id@);
                        } else {
                            assert(before.entries[a].id@ != id);
                        }
                    }
                    assert forall|k: Seq<char>| self.holds(k) <==> (before.holds(k) || k == id) by {
                        if self.holds(k) {
                            let j = choose|j: int|
                                0 <= j < self.entries.len() && (#[trigger] self.entries[j]).id@
                                    == k;
                            if j < n {
                                assert(before.entries[j].id@ == k);
                            }
                        }
                        if before.holds(k) {
                            let j = choose|j: int|
                                0 <= j < before.entries.len() && (
                                #[trigger] before.entries[j]).id@ == k;
                            assert(self.entries[j].id@ == k);
                        }
                        if k == id {
                            assert(self.entries[n].id@ == k);
                        }
                    }
                    assert forall|k: Seq<char>| self.holds(k) implies self@[k] == before@.insert(
                        id,
                        vector,
                    )[k] by {
                        let j = choose|j: int|
                            0 <= j < self.entries.len() && (#[trigger] self.entries[j]).id@ == k;
                        self.lemma_entry(j);
                        if j < n {
                            before.lemma_entry(j);
                        }
                    }
                    assert(self@ =~= before@.insert(id, vector));
                }
            },
        }
        Ok(())
    }

    /// The store that the persistent backing describes.
    ///
    /// The records have to be consistent. Where they are not, the backing
    /// is corrupt, and the error names the first record at fault: one whose
    /// vector has the wrong length, or else one that repeats an identifier.
    pub fn restore(dimension: usize, records: Vec<CacheEntry>) -> (outcome: Result<
        Store,
        StoreError,
    >)
        ensures
            outcome is Ok <==> consistent(dimension, records@),
            match outcome {
                Ok(store) => store.wf() && store.dimension == dimension && store.entries@
                    == records@,
                Err(StoreError::DimensionMismatch { index, expected, found }) => {
                    &&& first_fault(dimension, records@, index as int)
                    &&& records[index as int].vector.len() != dimension
                    &&& expected == dimension
                    &&& found == records[index as int].vector.len()
                },
                Err(StoreError::DuplicateRecord { index }) => {
                    &&& first_fault(dimension, records@, index as int)
                    &&& records[index as int].vector.len() == dimension
                },
            },
    {
        let mut i: usize = 0;
        while i < records.len()
            invariant
                i <= records.len(),
                consistent(dimension, records@.take(i as int)),
            decreases records.len() - i,
        {
            let ghost head = records@.take(i as int);
            let ghost next = records@.take(i + 1);
            if records[i].vector.len() != dimension {
                proof {
                    assert(next[i as int] == records[i as int]);
                    lemma_consistent_prefix(dimension, records@, i + 1);
                }
                return Err(
                    StoreError::DimensionMismatch {
                        index: i,
                        expected: dimension,
                        found: records[i].vector.len(),
                    },
                );
            }
            let mut j: usize = 0;
            while j < i
                invariant
                    j <= i < records.len(),
                    next == records@.take(i + 1),
                    consistent(dimension, records@.take(i as int)),
                    records[i as int].vector.len() == dimension,
                    forall|k: int| 0 <= k < j ==> (#[trigger] records[k]).id@ != records[i as int].id@,
                decreases i - j,
            {
                if records[j].id == records[i].id {
                    proof {
                        assert(next[j as int] == records[j as int] && next[i as int]
                            == records[i as int]);
                        lemma_consistent_prefix(dimension, records@, i + 1);
                    }
                    return Err(StoreError::DuplicateRecord { index: i });
                }
                j += 1;
            }
            proof {
                assert forall|k: int| 0 <= k < next.len() implies (#[trigger] next[k]).vector.len()
                    == dimension by {
                    if k < i {
                        assert(head[k] == next[k]);
                    }
                }
                assert forall|a: int, b: int| 0 <= a < b < next.len() implies (#[trigger] next[a]).id@
                    != (#[trigger] next[b]).id@ by {
                    if b < i {
                        assert(head[a] == next[a] && head[b] == next[b]);
                    } else {
                        assert(next[a] == records[a]);
                    }
                }
            }
            i += 1;
        }
        assert(records@.take(i as int) =~= records@);
        Ok(Store { dimension, entries: records })
    }

    /// Takes in what came of embedding the images that had no vector.
    /// Every outcome with a vector of the store's length is admitted; an
    /// image on which the model failed gets no entry. Returns how many
    /// outcomes were admitted.
    pub fn absorb(&mut self, outcomes: &Vec<EmbedOutcome>) -> (admitted: usize)
        requires
            old(self).wf(),
        ensures
            final(self).wf(),
            final(self).dimension == old(self).dimension,
            final(self)@ == absorbed(old(self)@, old(self).dimension, outcome_views(outcomes@)),
            admitted == admissible_count(old(self).dimension, outcome_views(outcomes@)),
            forall|j: int|
                0 <= j < final(self).entries.len() ==> old(self).entries@.contains(
                    #[trigger] final(self).entries[j],
                ) || final(self).entries[j].origin == Origin::Embedded,
    {
        let mut admitted: usize = 0;
        let mut i: usize = 0;
        while i < outcomes.len()
            invariant
                i <= outcomes.len(),
                admitted <= i,
                admitted == admissible_count(
                    old(self).dimension,
                    outcome_views(outcomes@).take(i as int),
                ),
                forall|j: int|
                    0 <= j < self.entries.len() ==> old(self).entries@.contains(
                        #[trigger] self.entries[j],
                    ) || self.entries[j].origin == Origin::Embedded,
                self.wf(),
                self.dimension == old(self).dimension,
                self@ == absorbed(
                    old(self)@,
                    old(self).dimension,
                    outcome_views(outcomes@).take(i as int),
                ),
            decreases outcomes.len() - i,
        {
            proof {
                let all = outcome_views(outcomes@);
                assert(all.take(i + 1).drop_last() =~= all.take(i as int));
                assert(all.take(i + 1).last() == outcomes[i as int]@);
            }
            match &outcomes[i].vector {
                Some(v) => {
                    if v.len() == self.dimension {
                        let vector = v.clone();
                        assert(vector@ =~= v@);
                        let entry = CacheEntry {
                            id: outcomes[i].id.clone(),
                            vector,
                            origin: Origin::Embedded,
                        };
                        let ghost before = self.entries@;
                        let ghost at = place_of(before, entry.id@);
                        let _ = self.insert(entry);
                        assert forall|j: int| 0 <= j < self.entries.len() implies old(
                            self).entries@.contains(#[trigger] self.entries[j])
                            || self.entries[j].origin == Origin::Embedded by {
                            lemma_place_bounds(before, outcomes[i as int].id@);
                            if j != at && j < before.len() {
                                assert(self.entries[j] == before[j]);
                            }
                        }
                        admitted += 1;
                    }
                },
                None => {},
            }
            i += 1;
        }
        assert(outcome_views(outcomes@).take(i as int) =~= outcome_views(outcomes@));
        admitted
    }

    /// The store of a run: what the persistent backing held, and on top of
    /// it what came of embedding the images that the backing had no
    /// vector for.
    ///
    /// A backing that is not consistent is an error, as in `restore`, and
    /// no store is made of it. Otherwise the store holds one entry for
    /// every image of the backing and for every image that was embedded
    /// with success, and none for an image that the model failed on.
    pub fn open(dimension: usize, backing: Vec<CacheEntry>, outcomes: &Vec<EmbedOutcome>) -> (opened:
        Result<Store, StoreError>)
        ensures
            opened is Ok <==> consistent(dimension, backing@),
            match opened {
                Ok(store) => {
                    &&& store.wf()
                    &&& store.dimension == dimension
                    &&& store@ == absorbed(
                        (Store { dimension, entries: backing })@,
                        dimension,
                        outcome_views(outcomes@),
                    )
                    &&& forall|j: int|
                        0 <= j < store.entries.len() ==> backing@.contains(
                            #[trigger] store.entries[j],
                        ) || store.entries[j].origin == Origin::Embedded
                },
                Err(StoreError::DimensionMismatch { index, expected, found }) => {
                    &&& first_fault(dimension, backing@, index as int)
                    &&& backing[index as int].vector.len() != dimension
                    &&& expected == dimension
                    &&& found == backing[index as int].vector.len()
                },
                Err(StoreError::DuplicateRecord { index }) => {
                    &&& first_fault(dimension, backing@, index as int)
                    &&& backing[index as int].vector.len() == dimension
                },
            },
    {
        match Store::restore(dimension, backing) {
            Ok(store) => {
                let mut store = store;
                assert(store@ =~= (Store { dimension, entries: backing })@);
                store.absorb(outcomes);
                Ok(store)
            },
            Err(e) => Err(e),
        }
    }

    /// The images of a scan that the model has to embed: those without a
    /// vector in the store, each once, in the order of the scan.
    pub fn missing(&self, images: &Vec<String>) -> (todo: Vec<String>)
        ensures
            texts(todo@) == pending(self@.dom(), texts(images@)),
    {
        let mut todo: Vec<String> = Vec::new();
        let mut i: usize = 0;
        while i < images.len()
            invariant
                i <= images.len(),
                texts(todo@) == pending(self@.dom(), texts(images@).take(i as int)),
            decreases images.len() - i,
        {
            proof {
                let all = texts(images@);
                assert(all.take(i + 1).drop_last() =~= all.take(i as int));
                assert(all.take(i + 1).last() == images[i as int]@);
            }
            let ghost before = texts(todo@);
            if self.needs_embedding(&images[i]) && !contains_text(&todo, &images[i]) {
                todo.push(images[i].clone());
                assert(texts(todo@) =~= before.push(images[i as int]@));
            }
            i += 1;
        }
        assert(texts(images@).take(i as int) =~= texts(images@));
        todo
    }
}

/// Consistent records stay consistent when the last of them are left out.
pub proof fn lemma_consistent_prefix(dimension: usize, records: Seq<CacheEntry>, n: int)
    requires
        0 <= n <= records.len(),
    ensures
        consistent(dimension, records) ==> consistent(dimension, records.take(n)),
{
    if consistent(dimension, records) {
        let head = records.take(n);
        assert forall|i: int| 0 <= i < head.len() implies (#[trigger] head[i]).vector.len()
            == dimension by {
            assert(head[i] == records[i]);
        }
        assert forall|i: int, j: int| 0 <= i < j < head.len() implies (#[trigger] head[i]).id@ != (
        #[trigger] head[j]).id@ by {
            assert(head[i] == records[i] && head[j] == records[j]);
        }
    }
}

/// No two outcomes are of the same image.
pub open spec fn distinct_images(outcomes: Seq<(Seq<char>, Option<Seq<u32>>)>) -> bool {
    forall|i: int, j: int|
        0 <= i < j < outcomes.len() ==> (#[trigger] outcomes[i]).0 != (#[trigger] outcomes[j]).0
}

/// Outcome `i` brings a vector for image `id` that the store takes.
pub open spec fn embeds(
    dimension: usize,
    outcomes: Seq<(Seq<char>, Option<Seq<u32>>)>,
    i: int,
    id: Seq<char>,
) -> bool {
    0 <= i < outcomes.len() && outcomes[i].0 == id && admissible(dimension, outcomes[i])
}

/// Some outcome brings a vector for image `id` that the store takes.
pub open spec fn embedded(
    dimension: usize,
    outcomes: Seq<(Seq<char>, Option<Seq<u32>>)>,
    id: Seq<char>,
) -> bool {
    exists|i: int| embeds(dimension, outcomes, i, id)
}

/// After a run the store has a vector for exactly the images that it had
/// one for before and those that were embedded with success; an image on
/// which the model failed has none unless it had one before.
pub proof fn lemma_absorbed_domain(
    held: Map<Seq<char>, Seq<u32>>,
    dimension: usize,
    outcomes: Seq<(Seq<char>, Option<Seq<u32>>)>,
    id: Seq<char>,
)
    ensures
        absorbed(held, dimension, outcomes).dom().contains(id) <==> held.dom().contains(id)
            || embedded(dimension, outcomes, id),
        !embedded(dimension, outcomes, id) && held.dom().contains(id) ==> absorbed(
            held,
            dimension,
            outcomes,
        )[id] == held[id],
    decreases outcomes.len(),
{
    if outcomes.len() > 0 {
        let head = outcomes.drop_last();
        let n = outcomes.len() - 1;
        lemma_absorbed_domain(held, dimension, head, id);
        if exists|i: int| embeds(dimension, head, i, id) {
            let i = choose|i: int| embeds(dimension, head, i, id);
            assert(embeds(dimension, outcomes, i, id));
        }
        if exists|i: int| embeds(dimension, outcomes, i, id) {
            let i = choose|i: int| embeds(dimension, outcomes, i, id);
            if i < n {
                assert(embeds(dimension, head, i, id));
            }
        }
        if admissible(dimension, outcomes.last()) && outcomes.last().0 == id {
            assert(embeds(dimension, outcomes, n, id));
        }
    }
}

/// Where every image was embedded once, the vector that the store has for
/// it after the run is the one that the model gave.
pub proof fn lemma_absorbed_vector(
    held: Map<Seq<char>, Seq<u32>>,
    dimension: usize,
    outcomes: Seq<(Seq<char>, Option<Seq<u32>>)>,
    i: int,
)
    requires
        distinct_images(outcomes),
        0 <= i < outcomes.len(),
        admissible(dimension, outcomes[i]),
    ensures
        absorbed(held, dimension, outcomes).dom().contains(outcomes[i].0),
        absorbed(held, dimension, outcomes)[outcomes[i].0] == outcomes[i].1->0,
    decreases outcomes.len(),
{
    let n = outcomes.len() - 1;
    if i < n {
        let head = outcomes.drop_last();
        assert forall|a: int, b: int| 0 <= a < b < head.len() implies (#[trigger] head[a]).0 != (
        #[trigger] head[b]).0 by {
            assert(head[a] == outcomes[a] && head[b] == outcomes[b]);
        }
        assert(head[i] == outcomes[i]);
        lemma_absorbed_vector(held, dimension, head, i);
        assert(outcomes[i].0 != outcomes[n].0);
    }
}

/// The order in which a scan comes upon the images does not show in the
/// store: two runs that embed the same images with the same outcomes,
/// each image once, leave the same contents.
pub proof fn lemma_scan_order(
    held: Map<Seq<char>, Seq<u32>>,
    dimension: usize,
    first: Seq<(Seq<char>, Option<Seq<u32>>)>,
    second: Seq<(Seq<char>, Option<Seq<u32>>)>,
)
    requires
        distinct_images(first),
        distinct_images(second),
        first.to_multiset() == second.to_multiset(),
    ensures
        absorbed(held, dimension, first) == absorbed(held, dimension, second),
{
    let a = absorbed(held, dimension, first);
    let b = absorbed(held, dimension, second);
    assert forall|id: Seq<char>| #[trigger]
        embedded(dimension, first, id) <==> embedded(dimension, second, id) by {
        if exists|i: int| embeds(dimension, first, i, id) {
            let i = choose|i: int| embeds(dimension, first, i, id);
            assert(first.contains(first[i]));
            vstd::seq_lib::to_multiset_contains(first, first[i]);
            vstd::seq_lib::to_multiset_contains(second, first[i]);
            let j = choose|j: int| 0 <= j < second.len() && second[j] == first[i];
            assert(embeds(dimension, second, j, id));
        }
        if exists|j: int| embeds(dimension, second, j, id) {
            let j = choose|j: int| embeds(dimension, second, j, id);
            assert(second.contains(second[j]));
            vstd::seq_lib::to_multiset_contains(first, second[j]);
            vstd::seq_lib::to_multiset_contains(second, second[j]);
            let i = choose|i: int| 0 <= i < first.len() && first[i] == second[j];
            assert(embeds(dimension, first, i, id));
        }
    }
    assert forall|id: Seq<char>| a.dom().contains(id) <==> b.dom().contains(id) by {
        lemma_absorbed_domain(held, dimension, first, id);
        lemma_absorbed_domain(held, dimension, second, id);
    }
    assert forall|id: Seq<char>| a.dom().contains(id) implies a[id] == b[id] by {
        lemma_absorbed_domain(held, dimension, first, id);
        lemma_absorbed_domain(held, dimension, second, id);
        if exists|i: int| embeds(dimension, first, i, id) {
            let i = choose|i: int| embeds(dimension, first, i, id);
            assert(first.contains(first[i]));
            vstd::seq_lib::to_multiset_contains(first, first[i]);
            vstd::seq_lib::to_multiset_contains(second, first[i]);
            let j = choose|j: int| 0 <= j < second.len() && second[j] == first[i];
            lemma_absorbed_vector(held, dimension, first, i);
            lemma_absorbed_vector(held, dimension, second, j);
        }
    }
    assert(a =~= b);
}

/// An image is among those that have to be embedded exactly when the scan
/// found it and the store has no vector for it, and it is there once.
pub proof fn lemma_pending(held: Set<Seq<char>>, images: Seq<Seq<char>>)
    ensures
        forall|id: Seq<char>| #[trigger]
            pending(held, images).contains(id) <==> images.contains(id) && !held.contains(id),
        pending(held, images).no_duplicates(),
    decreases images.len(),
{
    let todo = pending(held, images);
    if images.len() > 0 {
        let head = images.drop_last();
        let before = pending(held, head);
        let last = images.last();
        lemma_pending(held, head);
        assert forall|id: Seq<char>| #[trigger]
            todo.contains(id) <==> images.contains(id) && !held.contains(id) by {
            if todo.contains(id) {
                let k = choose|k: int| 0 <= k < todo.len() && todo[k] == id;
                if k < before.len() {
                    assert(before[k] == id);
                    assert(before.contains(id));
                    let m = choose|m: int| 0 <= m < head.len() && head[m] == id;
                    assert(images[m] == id);
                } else {
                    assert(images[images.len() - 1] == id);
                }
            }
            if images.contains(id) && !held.contains(id) {
                let m = choose|m: int| 0 <= m < images.len() && images[m] == id;
                if m < head.len() {
                    assert(head[m] == id);
                    assert(head.contains(id));
                    assert(before.contains(id));
                    let k = choose|k: int| 0 <= k < before.len() && before[k] == id;
                    assert(todo[k] == id);
                } else if before.contains(id) {
                    let k = choose|k: int| 0 <= k < before.len() && before[k] == id;
                    assert(todo[k] == id);
                } else {
                    assert(todo[todo.len() - 1] == id);
                }
            }
        }
    }
}

/// What a store holds can be restored from its entries, and a scan of
/// images that all have their vector there asks the model for nothing.
pub proof fn lemma_reopen(store: Store, images: Seq<Seq<char>>)
    requires
        store.wf(),
        forall|i: int| 0 <= i < images.len() ==> store@.dom().contains(#[trigger] images[i]),
    ensures
        consistent(store.dimension, store.entries@),
        pending(store@.dom(), images).len() == 0,
{
    lemma_pending(store@.dom(), images);
    let todo = pending(store@.dom(), images);
    if todo.len() > 0 {
        assert(todo.contains(todo[0]));
        let m = choose|m: int| 0 <= m < images.len() && images[m] == todo[0];
        assert(store@.dom().contains(images[m]));
    }
}

} // verus!
