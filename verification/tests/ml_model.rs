use bangida::ml::model::MlModel;

#[test]
fn test_load() {
    let mut model = MlModel::new("test");
    assert!(!model.is_loaded());
    model.load("/fake/path").unwrap();
    assert!(model.is_loaded());
}

#[test]
fn test_default() {
    let model = MlModel::default();
    assert_eq!(model.name(), "default");
    assert!(!model.is_loaded());
}

#[test]
fn model_keeps_name_after_load() {
    let mut model = MlModel::new("ranker");
    assert!(model.load("anywhere").is_ok());
    assert_eq!(model.name(), "ranker");
}
