use std::collections::HashMap;

use agiworkforce::analytics::{feature_flag_get, feature_flag_get_all};

#[test]
fn test_feature_flag_get() {
    let result = feature_flag_get("parallel_execution".to_string());
    assert!(result.is_ok());
    assert_eq!(result.unwrap(), true);

    let result = feature_flag_get("unknown_flag".to_string());
    assert!(result.is_ok());
    assert_eq!(result.unwrap(), false);
}

#[test]
fn test_feature_flag_get_all() {
    let result = feature_flag_get_all();
    assert!(result.is_ok());

    let flags: HashMap<String, bool> = result.unwrap().into_iter().collect();
    assert!(flags.len() > 0);
    assert_eq!(flags.get("parallel_execution"), Some(&true));
}

#[test]
fn every_listed_flag_is_looked_up_with_its_value() {
    let all = feature_flag_get_all().unwrap();
    assert_eq!(all.len(), 17);
    for (name, on) in &all {
        assert_eq!(feature_flag_get(name.clone()), Ok(*on));
    }
    assert_eq!(feature_flag_get("code_completion".to_string()), Ok(false));
    assert_eq!(feature_flag_get("Parallel_Execution".to_string()), Ok(false));
}
