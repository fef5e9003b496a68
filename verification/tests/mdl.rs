use std::sync::Arc;

use ironworks::mdl::{Lod, ModelContainer};

#[test]
fn model_has_the_level_asked_for() {
    let container = ModelContainer::read(vec![1, 2, 3]);
    assert_eq!(container.model(Lod::High).level(), Lod::High);
    assert_eq!(container.model(Lod::Medium).level(), Lod::Medium);
    assert_eq!(container.model(Lod::Low).level(), Lod::Low);
}

#[test]
fn models_share_the_file_of_their_container() {
    let container = ModelContainer::read(vec![1, 2, 3]);
    let high = container.model(Lod::High);
    let low = container.model(Lod::Low);
    assert!(Arc::ptr_eq(container.file(), high.file()));
    assert!(Arc::ptr_eq(high.file(), low.file()));
    assert_eq!(high.file().data, vec![1, 2, 3]);
    assert_eq!(Arc::strong_count(container.file()), 3);
}
