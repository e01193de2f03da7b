//! Configuration properties: a value set in a file wins, a value shared under another name
//! comes next, and the default fills what is left.
use noti::config::{merge_option, resolve_property, unwrap_or};
use noti::notification::str_eq;

#[derive(PartialEq, Debug)]
struct NestedConfig {
    value: f32,
    value1: bool,
    value2: f32,
}

#[derive(Clone, Default, PartialEq, Debug)]
struct TomlNestedConfig {
    value: Option<f32>,
    value1: Option<bool>,
    value2: Option<f32>,
    value3: Option<f32>,
}

impl TomlNestedConfig {
    fn unwrap_or_default(self) -> NestedConfig {
        NestedConfig {
            value: resolve_property(self.value, self.value3, 0.0),
            value1: unwrap_or(self.value1, false),
            value2: resolve_property(self.value2, self.value3, 0.0),
        }
    }

    fn merge(self, other: Option<TomlNestedConfig>) -> TomlNestedConfig {
        match other {
            None => self,
            Some(other) => TomlNestedConfig {
                value: merge_option(self.value, other.value),
                value1: merge_option(self.value1, other.value1),
                value2: merge_option(self.value2, other.value2),
                value3: merge_option(self.value3, other.value3),
            },
        }
    }
}

#[test]
fn simple_test() {
    let nested_config = TomlNestedConfig {
        value: None,
        value1: None,
        value2: Some(0.0),
        value3: Some(1.0),
    };

    assert_eq!(
        nested_config.unwrap_or_default(),
        NestedConfig {
            value: 1.0,
            value1: false,
            value2: 0.0
        }
    )
}

#[derive(PartialEq, Debug)]
struct Sample {
    value: i32,
    value2: bool,
    value3: String,
}

impl Sample {
    fn default_string() -> String {
        "Hell".to_string()
    }
}

#[derive(Default)]
struct TomlSample {
    value: Option<i32>,
    value2: Option<bool>,
    value3: Option<String>,
}

impl TomlSample {
    fn unwrap_or_default(self) -> Sample {
        Sample {
            value: unwrap_or(self.value, 0),
            value2: unwrap_or(self.value2, true),
            value3: match self.value3 {
                Some(v) => v,
                None => Sample::default_string(),
            },
        }
    }
}

#[test]
fn use_defaults() {
    let sample = TomlSample::default().unwrap_or_default();
    assert_eq!(
        sample,
        Sample {
            value: 0,
            value2: true,
            value3: "Hell".to_string()
        }
    )
}

#[derive(PartialEq, Debug)]
struct SharedSample {
    value: i32,
    value1: i32,
    value2: f32,
}

#[derive(Default)]
struct TomlSharedSample {
    value: Option<i32>,
    value1: Option<i32>,
    value2: Option<f32>,
    value5: Option<i32>,
}

impl TomlSharedSample {
    fn unwrap_or_default(self) -> SharedSample {
        SharedSample {
            value: resolve_property(self.value, self.value5, 0),
            value1: resolve_property(self.value1, self.value5, 0),
            value2: unwrap_or(self.value2, 0.0),
        }
    }
}

#[test]
fn temporary_fields() {
    let sample = TomlSharedSample {
        value5: Some(30),
        ..Default::default()
    }
    .unwrap_or_default();

    assert_eq!(
        sample,
        SharedSample {
            value: 30,
            value1: 30,
            value2: 0.0
        }
    )
}

#[test]
fn nested_properties_merge_field_by_field() {
    let own = TomlNestedConfig { value: Some(2.0), ..Default::default() };
    let shared = TomlNestedConfig { value: Some(5.0), value1: Some(true), ..Default::default() };
    let merged = own.merge(Some(shared));
    assert_eq!(merged.value, Some(2.0));
    assert_eq!(merged.value1, Some(true));
    assert_eq!(merged.value2, None);
}

/// A builder that knows its fields by name; a hidden field is not among them.
struct GBuilderTest;

impl GBuilderTest {
    fn new() -> Self {
        GBuilderTest
    }

    fn contains_field(&self, field_name: &str) -> bool {
        str_eq(field_name, "field1") || str_eq(field_name, "field2")
    }
}

#[test]
fn check_availability_of_fields() {
    let gbuilder = GBuilderTest::new();

    assert!(gbuilder.contains_field("field1"));
    assert!(gbuilder.contains_field("field2"));
    assert!(!gbuilder.contains_field("field3"));
    assert!(!gbuilder.contains_field("field4"));
}

#[derive(PartialEq, Debug)]
struct Config {
    value: i32,
    value2: String,
    value3: NestedConfig,
    value4: NestedConfig,
}

#[derive(Default)]
struct TomlConfig {
    value: Option<i32>,
    value2: Option<String>,
    value1: Option<TomlNestedConfig>,
    value3: Option<TomlNestedConfig>,
    value4: Option<TomlNestedConfig>,
}

impl TomlConfig {
    /// A nested property set here is completed with the shared one; without it the shared
    /// one is used.
    fn nested(own: Option<TomlNestedConfig>, shared: Option<TomlNestedConfig>) -> NestedConfig {
        let merged = match own {
            Some(own) => Some(own.merge(shared)),
            None => shared,
        };
        unwrap_or(merged, TomlNestedConfig::default()).unwrap_or_default()
    }

    fn unwrap_or_default(self) -> Config {
        Config {
            value: unwrap_or(self.value, 0),
            value2: unwrap_or(self.value2, String::new()),
            value3: TomlConfig::nested(self.value3, self.value1.clone()),
            value4: TomlConfig::nested(self.value4, self.value1),
        }
    }
}

#[test]
fn complex_test() {
    let nested = TomlNestedConfig {
        value3: Some(1.0),

        ..Default::default()
    };

    let second_nested = TomlNestedConfig {
        value1: Some(true),
        ..Default::default()
    };

    let config = TomlConfig {
        value: Some(30),
        value1: Some(nested.clone()),
        value4: Some(second_nested),
        ..Default::default()
    }
    .unwrap_or_default();

    assert_eq!(
        config,
        Config {
            value: 30,
            value2: "".to_string(),
            value3: nested.unwrap_or_default(),
            value4: NestedConfig {
                value: 1.0,
                value1: true,
                value2: 1.0
            }
        }
    )
}
