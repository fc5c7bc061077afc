//! The grid itself: two dimensions and the words that fill them.

use vstd::prelude::*;
use crate::bits::{
    lemma_total_ones_bound, lemma_total_ones_prefix, lemma_total_ones_push, lemma_total_ones_zero,
    total_ones,
};

verus! {

/// Why a buffer of words was turned down.
#[derive(Debug, Clone, Copy, PartialEq, Eq, Structural)]
pub enum GridError {
    /// The buffer does not hold exactly `word_width * height` words.
    InvalidLength,
}

impl GridError {
    /// What went wrong, in words.
    pub fn message(&self) -> (text: &'static str)
        ensures
            text@ == "Data length does not match word_width * height"@,
    {
        "Data length does not match word_width * height"
    }
}

/// A grid as a mathematical value.
pub struct GridModel {
    /// Words in one row.
    pub word_width: nat,
    /// Rows.
    pub height: nat,
    /// The words, row after row.
    pub data: Seq<u32>,
}

impl GridModel {
    /// The words fill the shape exactly.
    pub open spec fn well_formed(self) -> bool {
        self.data.len() == self.word_width * self.height
    }

    /// The grid of the given shape over `data`, if `data` fills that shape.
    pub open spec fn build(word_width: nat, height: nat, data: Seq<u32>) -> Result<
        GridModel,
        GridError,
    > {
        if data.len() == word_width * height {
            Ok(GridModel { word_width, height, data })
        } else {
            Err(GridError::InvalidLength)
        }
    }

    /// The grid of the given shape with every bit cleared.
    pub open spec fn zeroed(word_width: nat, height: nat) -> GridModel {
        GridModel { word_width, height, data: Seq::new(word_width * height, |i: int| 0u32) }
    }

    /// This grid with `data` in place of its words, if `data` fills its shape.
    pub open spec fn replace(self, data: Seq<u32>) -> Result<GridModel, GridError> {
        if data.len() == self.word_width * self.height {
            Ok(GridModel { data, ..self })
        } else {
            Err(GridError::InvalidLength)
        }
    }

    /// The number of bits that are set.
    pub open spec fn population(self) -> nat {
        total_ones(self.data)
    }
}

/// A `word_width` by `height` grid of 32-bit words, each a pack of 32 bits.
#[derive(Debug)]
pub struct BitGrid {
    word_width: usize,
    height: usize,
    data: Vec<u32>,
}

impl View for BitGrid {
    type V = GridModel;

    closed spec fn view(&self) -> GridModel {
        GridModel {
            word_width: self.word_width as nat,
            height: self.height as nat,
            data: self.data@,
        }
    }
}

impl BitGrid {
    #[verifier::type_invariant]
    spec fn shape_holds(&self) -> bool {
        self.data@.len() == self.word_width * self.height
    }

    /// Makes a grid over `data`. A buffer that does not hold exactly
    /// `word_width * height` words is turned down with `InvalidLength`.
    pub fn new(word_width: usize, height: usize, data: Vec<u32>) -> (made: Result<
        BitGrid,
        GridError,
    >)
        ensures
            match made {
                Ok(grid) => GridModel::build(word_width as nat, height as nat, data@) == Ok::<
                    GridModel,
                    GridError,
                >(grid@),
                Err(e) => GridModel::build(word_width as nat, height as nat, data@) == Err::<
                    GridModel,
                    GridError,
                >(e),
            },
    {
        let given: usize = data.len();
        match word_width.checked_mul(height) {
            Some(cells) => {
                if given == cells {
                    Ok(BitGrid { word_width, height, data })
                } else {
                    Err(GridError::InvalidLength)
                }
            },
            // The product is beyond what any buffer can hold.
            None => Err(GridError::InvalidLength),
        }
    }

    /// Makes a grid of the given shape with every bit cleared.
    pub fn zeroed(word_width: usize, height: usize) -> (grid: BitGrid)
        requires
            word_width * height <= usize::MAX,
        ensures
            grid@ == GridModel::zeroed(word_width as nat, height as nat),
            grid@.well_formed(),
            grid@.population() == 0,
    {
        let data: Vec<u32> = vec![0u32; word_width * height];
        proof {
            assert(data@ =~= Seq::new((word_width as nat) * (height as nat), |i: int| 0u32));
            lemma_total_ones_zero(data@);
        }
        BitGrid { word_width, height, data }
    }

    /// A copy of the words, row after row. The copy is the caller's own:
    /// the grid keeps its words whatever becomes of it.
    pub fn get_internal_data(&self) -> (words: Vec<u32>)
        ensures
            words@ == self@.data,
            self@.well_formed(),
    {
        proof {
            use_type_invariant(self);
        }
        let words = self.data.clone();
        assert(words@ =~= self.data@);
        words
    }

    /// Puts `data` in place of the words, if it holds as many as the shape
    /// asks for. Otherwise the grid stays exactly as it was.
    pub fn set_internal_data(&mut self, data: Vec<u32>) -> (done: Result<(), GridError>)
        ensures
            match done {
                Ok(_) => old(self)@.replace(data@) == Ok::<GridModel, GridError>(final(self)@),
                Err(e) => old(self)@.replace(data@) == Err::<GridModel, GridError>(e)
                    && *final(self) == *old(self),
            },
            final(self)@.well_formed(),
    {
        proof {
            use_type_invariant(&*self);
        }
        if data.len() == self.data.len() {
            self.data = data;
            Ok(())
        } else {
            Err(GridError::InvalidLength)
        }
    }

    /// Words in one row.
    pub fn get_word_width(&self) -> (word_width: usize)
        ensures
            word_width == self@.word_width,
            self@.well_formed(),
    {
        proof {
            use_type_invariant(self);
        }
        self.word_width
    }

    /// Rows.
    pub fn get_height(&self) -> (height: usize)
        ensures
            height == self@.height,
            self@.well_formed(),
    {
        proof {
            use_type_invariant(self);
        }
        self.height
    }

    /// Counts the bits that are set, or gives `None` where the count is
    /// beyond `u32::MAX`.
    pub fn checked_population_count(&self) -> (count: Option<u32>)
        ensures
            match count {
                Some(n) => n == self@.population(),
                None => self@.population() > u32::MAX,
            },
            self@.well_formed(),
    {
        proof {
            use_type_invariant(self);
        }
        let ghost words = self.data@;
        let mut count: u32 = 0;
        let mut at: usize = 0;
        while at < self.data.len()
            invariant
                self@.well_formed(),
                words == self.data@,
                at <= words.len(),
                count == total_ones(words.take(at as int)),
            decreases words.len() - at,
        {
            let ones: u32 = self.data[at].count_ones();
            proof {
                lemma_total_ones_push(words.take(at as int), words[at as int]);
                assert(words.take(at as int).push(words[at as int]) =~= words.take(at + 1));
                lemma_total_ones_prefix(words, at + 1);
            }
            match count.checked_add(ones) {
                Some(sum) => {
                    count = sum;
                },
                None => {
                    return None;
                },
            }
            at = at + 1;
        }
        assert(words.take(at as int) =~= words);
        Some(count)
    }

    /// Counts the bits that are set. The count has to fit the result:
    /// with fewer than `2^27` words it always does.
    pub fn population_count(&self) -> (count: u32)
        requires
            self@.population() <= u32::MAX,
        ensures
            count == self@.population(),
            self@.well_formed(),
    {
        self.checked_population_count().unwrap()
    }
}

/// A buffer of the exact length always gives a grid, and the grid holds
/// exactly that buffer under the dimensions asked for.
pub proof fn lemma_build_keeps_data(word_width: nat, height: nat, data: Seq<u32>)
    requires
        data.len() == word_width * height,
    ensures
        GridModel::build(word_width, height, data) matches Ok(grid) && grid.data == data
            && grid.word_width == word_width && grid.height == height && grid.well_formed(),
{
}

/// A buffer of any other length gives `InvalidLength` and no grid.
pub proof fn lemma_build_rejects(word_width: nat, height: nat, data: Seq<u32>)
    requires
        data.len() != word_width * height,
    ensures
        GridModel::build(word_width, height, data) == Err::<GridModel, GridError>(
            GridError::InvalidLength,
        ),
{
}

/// A buffer of zero words of the exact length gives the cleared grid, in
/// which no bit is set.
pub proof fn lemma_build_zero_filled(word_width: nat, height: nat, data: Seq<u32>)
    requires
        data.len() == word_width * height,
        forall|i: int| 0 <= i < data.len() ==> data[i] == 0,
    ensures
        GridModel::build(word_width, height, data) == Ok::<GridModel, GridError>(
            GridModel::zeroed(word_width, height),
        ),
        GridModel::zeroed(word_width, height).population() == 0,
{
    assert(data =~= GridModel::zeroed(word_width, height).data);
    lemma_total_ones_zero(data);
}

/// Replacing the words of a grid with a buffer of the wrong length gives
/// `InvalidLength` and no new grid.
pub proof fn lemma_replace_rejects(grid: GridModel, data: Seq<u32>)
    requires
        grid.well_formed(),
        data.len() != grid.word_width * grid.height,
    ensures
        grid.replace(data) == Err::<GridModel, GridError>(GridError::InvalidLength),
{
}

/// Replacing the words of a grid changes nothing but the words, and the
/// words still fill the shape.
pub proof fn lemma_replace_keeps_shape(grid: GridModel, data: Seq<u32>)
    requires
        grid.well_formed(),
        data.len() == grid.word_width * grid.height,
    ensures
        grid.replace(data) matches Ok(next) && next.data == data && next.word_width
            == grid.word_width && next.height == grid.height && next.well_formed(),
{
}

/// The bits of a grid are at most 32 for each of its words.
pub proof fn lemma_population_bound(grid: GridModel)
    ensures
        grid.population() <= 32 * grid.data.len(),
{
    lemma_total_ones_bound(grid.data);
}

} // verus!
