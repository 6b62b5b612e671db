use crate::config::{word_of, to_word, IndexConfig};
use crate::error::HnswError;
use vstd::prelude::*;

verus! {

/// One neighbour found by a search: the identifier its point was inserted
/// under and its distance to the query, as the bit pattern of a
/// single-precision number.
#[derive(Debug, Clone, Copy, PartialEq, Eq, Structural)]
pub struct SearchResult {
    pub id: u64,
    pub distance_bits: u32,
}

/// The search arguments in the width the graph engine takes them.
#[derive(Debug, Clone, Copy, PartialEq, Eq, Structural)]
pub struct SearchParams {
    pub knbn: usize,
    pub ef: usize,
}

/// The length that a dimension error reports for a vector of `len`
/// coordinates: `len` itself below 2^32, its low 32 bits above.
pub open spec fn reported_len(len: nat) -> u32 {
    (len % 0x1_0000_0000) as u32
}

/// Whether every one of the first `n` vectors has `dimension` coordinates.
pub open spec fn all_fit<T>(dimension: u32, data: Seq<Vec<T>>, n: int) -> bool {
    forall|j: int| 0 <= j < n ==> (#[trigger] data[j])@.len() == dimension
}

/// The identifiers of a batch as the graph engine takes them.
pub open spec fn engine_ids(ids: Seq<u64>) -> Seq<usize> {
    Seq::new(ids.len(), |i: int| word_of(ids[i]))
}

fn clip_len(len: usize) -> (r: u32)
    ensures
        r == reported_len(len as nat),
{
    (len as u64 % 0x1_0000_0000) as u32
}

impl SearchResult {
    /// The result for a neighbour the engine reports under `d_id`.
    pub fn new(d_id: usize, distance_bits: u32) -> (r: Self)
        ensures
            r.id == d_id,
            r.distance_bits == distance_bits,
    {
        SearchResult { id: d_id as u64, distance_bits }
    }
}

impl IndexConfig {
    /// Accepts a vector exactly when it has as many coordinates as the
    /// index has dimensions.
    pub fn check_vector<T>(&self, data: &Vec<T>) -> (r: Result<(), HnswError>)
        ensures
            data@.len() == self.dimension ==> r == Ok::<(), HnswError>(()),
            data@.len() != self.dimension ==> r == Err::<(), HnswError>(
                HnswError::DimensionMismatch {
                    expected: self.dimension,
                    got: reported_len(data@.len()),
                },
            ),
    {
        if data.len() != self.dimension as usize {
            return Err(
                HnswError::DimensionMismatch { expected: self.dimension, got: clip_len(data.len()) },
            );
        }
        Ok(())
    }

    /// Decides an insertion: a vector of the wrong length is refused, any
    /// other goes to the engine under the identifier returned.
    pub fn insert_request<T>(&self, data: &Vec<T>, id: u64) -> (r: Result<usize, HnswError>)
        ensures
            data@.len() == self.dimension ==> r == Ok::<usize, HnswError>(word_of(id)),
            data@.len() != self.dimension ==> r == Err::<usize, HnswError>(
                HnswError::DimensionMismatch {
                    expected: self.dimension,
                    got: reported_len(data@.len()),
                },
            ),
    {
        match self.check_vector(data) {
            Ok(()) => Ok(to_word(id)),
            Err(e) => Err(e),
        }
    }

    /// Decides a search: a query of the wrong length is refused, any other
    /// goes to the engine with the widened arguments returned.
    pub fn search_request<T>(&self, query: &Vec<T>, k: u32, ef_search: u32) -> (r: Result<
        SearchParams,
        HnswError,
    >)
        ensures
            query@.len() == self.dimension ==> r == Ok::<SearchParams, HnswError>(
                SearchParams { knbn: k as usize, ef: ef_search as usize },
            ),
            query@.len() == self.dimension ==> r.unwrap().knbn == k && r.unwrap().ef == ef_search,
            query@.len() != self.dimension ==> r == Err::<SearchParams, HnswError>(
                HnswError::DimensionMismatch {
                    expected: self.dimension,
                    got: reported_len(query@.len()),
                },
            ),
    {
        match self.check_vector(query) {
            Ok(()) => Ok(SearchParams { knbn: k as usize, ef: ef_search as usize }),
            Err(e) => Err(e),
        }
    }

    /// Decides a batch insertion before anything is inserted: the two lists
    /// must be equally long and every vector must fit the index. The first
    /// vector that does not fit is the one reported.
    pub fn batch_request<T>(&self, data: &Vec<Vec<T>>, ids: &Vec<u64>) -> (r: Result<
        Vec<usize>,
        HnswError,
    >)
        ensures
            data@.len() != ids@.len() ==> r matches Err(HnswError::IoError(_)),
            match r {
                Ok(converted) => {
                    &&& data@.len() == ids@.len()
                    &&& all_fit(self.dimension, data@, data@.len() as int)
                    &&& converted@ == engine_ids(ids@)
                },
                Err(HnswError::IoError(message)) => {
                    &&& data@.len() != ids@.len()
                    &&& message@ == "Data and IDs must have the same length"@
                },
                Err(HnswError::DimensionMismatch { expected, got }) => {
                    &&& data@.len() == ids@.len()
                    &&& expected == self.dimension
                    &&& exists|i: int|
                        0 <= i < data@.len() && all_fit(self.dimension, data@, i) && (
                        #[trigger] data@[i])@.len() != self.dimension && got == reported_len(
                            data@[i]@.len(),
                        )
                },
                Err(_) => false,
            },
    {
        if data.len() != ids.len() {
            return Err(HnswError::IoError("Data and IDs must have the same length".to_string()));
        }
        let mut i: usize = 0;
        while i < data.len()
            invariant
                i <= data@.len(),
                data@.len() == ids@.len(),
                all_fit(self.dimension, data@, i as int),
            decreases data@.len() - i,
        {
            if data[i].len() != self.dimension as usize {
                assert(data@[i as int]@.len() != self.dimension);
                return Err(
                    HnswError::DimensionMismatch {
                        expected: self.dimension,
                        got: clip_len(data[i].len()),
                    },
                );
            }
            i += 1;
        }
        let mut converted: Vec<usize> = Vec::with_capacity(ids.len());
        let mut j: usize = 0;
        while j < ids.len()
            invariant
                j <= ids@.len(),
                converted@.len() == j,
                forall|n: int| 0 <= n < j ==> converted@[n] == word_of(#[trigger] ids@[n]),
            decreases ids@.len() - j,
        {
            converted.push(to_word(ids[j]));
            j += 1;
        }
        assert(converted@ =~= engine_ids(ids@));
        Ok(converted)
    }
}

} // verus!
