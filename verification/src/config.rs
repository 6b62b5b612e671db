use crate::error::HnswError;
use vstd::prelude::*;

verus! {

/// The distance function an index is built on.
#[derive(Debug, Clone, Copy, PartialEq, Eq, Structural)]
pub enum DistanceType {
    L2,
    Cosine,
    L1,
    Dot,
}

/// The fixed shape of an index: its metric, its dimension and the capacity
/// parameters its graph is allocated with.
#[derive(Debug, Clone, Copy, PartialEq, Eq, Structural)]
pub struct IndexConfig {
    pub max_nb_connection: u32,
    pub max_elements: u64,
    pub max_layer: u32,
    pub ef_construction: u32,
    pub dimension: u32,
    pub distance: DistanceType,
}

/// The capacity parameters in the width the graph engine takes them.
#[derive(Debug, Clone, Copy, PartialEq, Eq, Structural)]
pub struct EngineParams {
    pub max_nb_connection: usize,
    pub max_elements: usize,
    pub max_layer: usize,
    pub ef_construction: usize,
}

/// A 64-bit count in the machine's word: itself where it fits, else cut to
/// the word's width.
pub open spec fn word_of(n: u64) -> usize {
    n as usize
}

/// The machine word that stands for a 64-bit count.
pub fn to_word(n: u64) -> (r: usize)
    ensures
        r == word_of(n),
        n <= usize::MAX ==> r == n,
{
    #[verifier::truncate]
    (n as usize)
}

impl IndexConfig {
    /// The configuration with the given parameters.
    pub fn new(
        max_nb_connection: u32,
        max_elements: u64,
        max_layer: u32,
        ef_construction: u32,
        dimension: u32,
        distance: DistanceType,
    ) -> (r: Self)
        ensures
            r == (IndexConfig {
                max_nb_connection,
                max_elements,
                max_layer,
                ef_construction,
                dimension,
                distance,
            }),
    {
        IndexConfig {
            max_nb_connection,
            max_elements,
            max_layer,
            ef_construction,
            dimension,
            distance,
        }
    }

    /// What the graph engine is constructed with for this configuration.
    pub open spec fn spec_engine_params(self) -> EngineParams {
        EngineParams {
            max_nb_connection: self.max_nb_connection as usize,
            max_elements: word_of(self.max_elements),
            max_layer: self.max_layer as usize,
            ef_construction: self.ef_construction as usize,
        }
    }

    /// The capacity parameters to construct the graph engine with. The 32-bit
    /// parameters are handed on as they are.
    pub fn engine_params(&self) -> (r: EngineParams)
        ensures
            r == self.spec_engine_params(),
            r.max_nb_connection == self.max_nb_connection,
            r.max_layer == self.max_layer,
            r.ef_construction == self.ef_construction,
    {
        EngineParams {
            max_nb_connection: self.max_nb_connection as usize,
            max_elements: to_word(self.max_elements),
            max_layer: self.max_layer as usize,
            ef_construction: self.ef_construction as usize,
        }
    }

    /// Whether `requested` may describe a rebuilt copy of an index of this
    /// shape: it must name the same metric and the same dimension. The
    /// metric is looked at first.
    pub open spec fn spec_check_shape(self, requested: IndexConfig) -> Result<(), HnswError> {
        if requested.distance != self.distance {
            Err(HnswError::DistanceMismatch)
        } else if requested.dimension != self.dimension {
            Err(HnswError::DimensionMismatch { expected: self.dimension, got: requested.dimension })
        } else {
            Ok(())
        }
    }

    /// Accepts `requested` as the shape of a rebuilt copy exactly when its
    /// metric and dimension are those of this configuration.
    pub fn check_shape(&self, requested: &IndexConfig) -> (r: Result<(), HnswError>)
        ensures
            r == self.spec_check_shape(*requested),
    {
        if requested.distance != self.distance {
            Err(HnswError::DistanceMismatch)
        } else if requested.dimension != self.dimension {
            Err(HnswError::DimensionMismatch { expected: self.dimension, got: requested.dimension })
        } else {
            Ok(())
        }
    }
}

} // verus!
