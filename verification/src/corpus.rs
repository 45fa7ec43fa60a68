//! The initial corpus.

use vstd::prelude::*;

verus! {

/// How many inputs are generated where none are given.
pub const INITIAL_INPUTS: usize = 8;

/// The maximal size of a generated initial input.
pub const INITIAL_INPUT_MAX_SIZE: usize = 32;

/// Where the initial corpus comes from.
#[derive(Clone, Copy, PartialEq, Eq, Structural, Debug)]
pub enum InitialCorpus {
    /// The corpus is there already.
    Present,
    /// Its inputs are generated.
    Generated,
    /// Its inputs are loaded from the given directories.
    Loaded,
}

/// Where the initial corpus comes from, given the number of inputs that the corpus holds and
/// the number of input directories.
pub fn initial_corpus(count: usize, input_dirs: usize) -> (source: InitialCorpus)
    ensures
        source is Present <==> count > 0,
        source is Generated <==> count == 0 && input_dirs == 0,
        source is Loaded <==> count == 0 && input_dirs > 0,
{
    if count > 0 {
        InitialCorpus::Present
    } else if input_dirs == 0 {
        InitialCorpus::Generated
    } else {
        InitialCorpus::Loaded
    }
}

/// A corpus that holds inputs is kept. An empty one is loaded if directories are given, and
/// generated otherwise: eight inputs of up to 32 bytes.
pub proof fn law_initial_corpus(count: usize, input_dirs: usize, source: InitialCorpus)
    requires
        call_ensures(initial_corpus, (count, input_dirs), source),
    ensures
        count != 0 ==> source == InitialCorpus::Present,
        count == 0 && input_dirs != 0 ==> source == InitialCorpus::Loaded,
        count == 0 && input_dirs == 0 ==> source == InitialCorpus::Generated,
        INITIAL_INPUTS == 8,
        INITIAL_INPUT_MAX_SIZE == 32,
{
}

} // verus!
