use neodiff::corpus::{initial_corpus, InitialCorpus, INITIAL_INPUTS, INITIAL_INPUT_MAX_SIZE};

#[test]
fn sources_of_the_initial_corpus() {
    assert_eq!(initial_corpus(0, 0), InitialCorpus::Generated);
    assert_eq!(initial_corpus(0, 2), InitialCorpus::Loaded);
    assert_eq!(initial_corpus(1, 0), InitialCorpus::Present);
    assert_eq!(initial_corpus(1, 2), InitialCorpus::Present);
    assert_eq!((INITIAL_INPUTS, INITIAL_INPUT_MAX_SIZE), (8, 32));
}
