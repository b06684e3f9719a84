use husako::quantity::validate_doc_fallback;
use husako::render::{
    join_documents, validate_output, CompileError, EmitError, RenderOptions,
};
use husako::validate::{
    validate, JsonNumber, JsonValue, SchemaStore, ValidationError, ValidationErrorKind,
};

/// A JSON value parsed from text.
fn parse(text: &str) -> serde_json::Value {
    serde_json::from_str(text).unwrap()
}

/// The validator's form of a parsed JSON value.
fn to_json(v: &serde_json::Value) -> JsonValue {
    match v {
        serde_json::Value::Null => JsonValue::Null,
        serde_json::Value::Bool(b) => JsonValue::Bool(*b),
        serde_json::Value::Number(n) => {
            let f = n.as_f64().unwrap();
            let integer = n.as_i64().map(i128::from).or_else(|| n.as_u64().map(i128::from));
            let bits = f.to_bits() as i64;
            let order = if f == 0.0 {
                0
            } else if bits < 0 {
                bits ^ i64::MAX
            } else {
                bits
            };
            JsonValue::Number(JsonNumber { integer, order, text: format!("{f}") })
        }
        serde_json::Value::String(s) => JsonValue::Str(s.clone()),
        serde_json::Value::Array(a) => {
            JsonValue::Array(a.iter().map(to_json).collect(), v.to_string())
        }
        serde_json::Value::Object(m) => JsonValue::Object(
            m.iter().map(|(k, x)| (k.clone(), to_json(x))).collect(),
            v.to_string(),
        ),
    }
}

fn make_store(schemas_json: serde_json::Value, gvk_json: serde_json::Value) -> SchemaStore {
    let mut m = serde_json::Map::new();
    m.insert("version".to_string(), serde_json::Value::from(2));
    m.insert("gvk_index".to_string(), gvk_json);
    m.insert("schemas".to_string(), schemas_json);
    SchemaStore::from_json(to_json(&serde_json::Value::Object(m))).unwrap()
}

fn simple_store() -> SchemaStore {
    make_store(
        parse(r#"{
            "io.k8s.api.apps.v1.Deployment": {
                "properties": {
                    "apiVersion": {"type": "string"},
                    "kind": {"type": "string"},
                    "metadata": {"$ref": "io.k8s.apimachinery.pkg.apis.meta.v1.ObjectMeta"},
                    "spec": {"$ref": "io.k8s.api.apps.v1.DeploymentSpec"}
                },
                "required": ["spec"]
            },
            "io.k8s.api.apps.v1.DeploymentSpec": {
                "properties": {
                    "replicas": {"type": "integer"},
                    "selector": {"$ref": "io.k8s.apimachinery.pkg.apis.meta.v1.LabelSelector"},
                    "strategy": {"$ref": "io.k8s.api.apps.v1.DeploymentStrategy"},
                    "template": {"$ref": "io.k8s.api.core.v1.PodTemplateSpec"}
                },
                "required": ["selector"]
            },
            "io.k8s.api.apps.v1.DeploymentStrategy": {
                "properties": {
                    "type": {
                        "type": "string",
                        "enum": ["Recreate", "RollingUpdate"]
                    }
                }
            },
            "io.k8s.api.core.v1.PodTemplateSpec": {
                "properties": {
                    "spec": {"$ref": "io.k8s.api.core.v1.PodSpec"}
                }
            },
            "io.k8s.api.core.v1.PodSpec": {
                "properties": {
                    "containers": {
                        "type": "array",
                        "items": {"$ref": "io.k8s.api.core.v1.Container"}
                    }
                }
            },
            "io.k8s.api.core.v1.Container": {
                "properties": {
                    "name": {"type": "string"},
                    "image": {"type": "string"},
                    "imagePullPolicy": {
                        "type": "string",
                        "enum": ["Always", "IfNotPresent", "Never"]
                    },
                    "ports": {
                        "type": "array",
                        "items": {"$ref": "io.k8s.api.core.v1.ContainerPort"}
                    },
                    "resources": {"$ref": "io.k8s.api.core.v1.ResourceRequirements"}
                }
            },
            "io.k8s.api.core.v1.ContainerPort": {
                "properties": {
                    "containerPort": {
                        "type": "integer",
                        "minimum": 1,
                        "maximum": 65535
                    },
                    "protocol": {
                        "type": "string",
                        "enum": ["TCP", "UDP", "SCTP"]
                    }
                }
            },
            "io.k8s.api.core.v1.ResourceRequirements": {
                "properties": {
                    "limits": {
                        "type": "object",
                        "additionalProperties": {"$ref": "io.k8s.apimachinery.pkg.api.resource.Quantity"}
                    },
                    "requests": {
                        "type": "object",
                        "additionalProperties": {"$ref": "io.k8s.apimachinery.pkg.api.resource.Quantity"}
                    }
                }
            },
            "io.k8s.apimachinery.pkg.api.resource.Quantity": {
                "type": "string",
                "format": "quantity"
            },
            "io.k8s.apimachinery.pkg.apis.meta.v1.ObjectMeta": {
                "properties": {
                    "name": {"type": "string"},
                    "namespace": {"type": "string"},
                    "labels": {
                        "type": "object",
                        "additionalProperties": {"type": "string"}
                    }
                }
            },
            "io.k8s.apimachinery.pkg.apis.meta.v1.LabelSelector": {
                "properties": {
                    "matchLabels": {
                        "type": "object",
                        "additionalProperties": {"type": "string"}
                    }
                }
            }
        }"#),
        parse(r#"{
            "apps/v1:Deployment": "io.k8s.api.apps.v1.Deployment"
        }"#),
    )
}

// --- Type checks ---

#[test]
fn type_mismatch_string_at_integer() {
    let store = simple_store();
    let doc = parse(r#"[{
        "apiVersion": "apps/v1",
        "kind": "Deployment",
        "spec": {
            "selector": {},
            "replicas": "abc"
        }
    }]"#);
    let errs = validate(&to_json(&doc), Some(&store)).unwrap_err();
    assert_eq!(errs.len(), 1);
    assert!(errs[0].path.contains("replicas"));
    assert!(matches!(
        &errs[0].kind,
        ValidationErrorKind::TypeMismatch {
            expected: "integer",
            ..
        }
    ));
    assert!(errs[0].message().contains("expected type integer"));
    assert!(errs[0].message().contains("string"));
}

// --- Required ---

#[test]
fn missing_required_field() {
    let store = simple_store();
    let doc = parse(r#"[{
        "apiVersion": "apps/v1",
        "kind": "Deployment",
        "spec": {
            "replicas": 3
        }
    }]"#);
    let errs = validate(&to_json(&doc), Some(&store)).unwrap_err();
    assert!(errs.iter().any(|e| matches!(
        &e.kind,
        ValidationErrorKind::MissingRequired { field } if field == "selector"
    )));
}

// --- Enum ---

#[test]
fn invalid_enum_value() {
    let store = simple_store();
    let doc = parse(r#"[{
        "apiVersion": "apps/v1",
        "kind": "Deployment",
        "spec": {
            "selector": {},
            "strategy": {
                "type": "bluegreen"
            }
        }
    }]"#);
    let errs = validate(&to_json(&doc), Some(&store)).unwrap_err();
    assert_eq!(errs.len(), 1);
    assert!(
        matches!(&errs[0].kind, ValidationErrorKind::InvalidEnum { value, allowed }
            if value == "bluegreen" && allowed.contains(&"Recreate".to_string())
        )
    );
    assert!(errs[0].message().contains("bluegreen"));
}

#[test]
fn valid_enum_value() {
    let store = simple_store();
    let doc = parse(r#"[{
        "apiVersion": "apps/v1",
        "kind": "Deployment",
        "spec": {
            "selector": {},
            "template": {
                "spec": {
                    "containers": [{
                        "imagePullPolicy": "Always"
                    }]
                }
            }
        }
    }]"#);
    assert!(validate(&to_json(&doc), Some(&store)).is_ok());
}

// --- Format: quantity ---

#[test]
fn valid_quantity() {
    let store = simple_store();
    let doc = parse(r#"[{
        "apiVersion": "apps/v1",
        "kind": "Deployment",
        "spec": {
            "selector": {},
            "template": {
                "spec": {
                    "containers": [{
                        "resources": {
                            "requests": {"cpu": "500m", "memory": "1Gi"}
                        }
                    }]
                }
            }
        }
    }]"#);
    assert!(validate(&to_json(&doc), Some(&store)).is_ok());
}

#[test]
fn invalid_quantity() {
    let store = simple_store();
    let doc = parse(r#"[{
        "apiVersion": "apps/v1",
        "kind": "Deployment",
        "spec": {
            "selector": {},
            "template": {
                "spec": {
                    "containers": [{
                        "resources": {
                            "requests": {"cpu": "2gb"}
                        }
                    }]
                }
            }
        }
    }]"#);
    let errs = validate(&to_json(&doc), Some(&store)).unwrap_err();
    assert_eq!(errs.len(), 1);
    assert!(
        matches!(&errs[0].kind, ValidationErrorKind::InvalidQuantity { value } if value == "2gb")
    );
}

#[test]
fn number_at_quantity_is_valid() {
    let store = simple_store();
    let doc = parse(r#"[{
        "apiVersion": "apps/v1",
        "kind": "Deployment",
        "spec": {
            "selector": {},
            "template": {
                "spec": {
                    "containers": [{
                        "resources": {
                            "limits": {"cpu": 1}
                        }
                    }]
                }
            }
        }
    }]"#);
    assert!(validate(&to_json(&doc), Some(&store)).is_ok());
}

// --- Pattern ---

#[test]
fn pattern_match_ok() {
    let store = make_store(
        parse(r#"{
            "test.Resource": {
                "properties": {
                    "name": {
                        "type": "string",
                        "pattern": "^[a-z][a-z0-9-]*$"
                    }
                }
            }
        }"#),
        parse(r#"{ "v1:Test": "test.Resource" }"#),
    );
    let doc = parse(r#"[{
        "apiVersion": "v1",
        "kind": "Test",
        "name": "my-resource-1"
    }]"#);
    assert!(validate(&to_json(&doc), Some(&store)).is_ok());
}

#[test]
fn pattern_mismatch() {
    let store = make_store(
        parse(r#"{
            "test.Resource": {
                "properties": {
                    "name": {
                        "type": "string",
                        "pattern": "^[a-z][a-z0-9-]*$"
                    }
                }
            }
        }"#),
        parse(r#"{ "v1:Test": "test.Resource" }"#),
    );
    let doc = parse(r#"[{
        "apiVersion": "v1",
        "kind": "Test",
        "name": "INVALID_NAME"
    }]"#);
    let errs = validate(&to_json(&doc), Some(&store)).unwrap_err();
    assert_eq!(errs.len(), 1);
    assert!(matches!(
        &errs[0].kind,
        ValidationErrorKind::PatternMismatch { .. }
    ));
}

// --- Bounds ---

#[test]
fn port_in_range() {
    let store = simple_store();
    let doc = parse(r#"[{
        "apiVersion": "apps/v1",
        "kind": "Deployment",
        "spec": {
            "selector": {},
            "template": {
                "spec": {
                    "containers": [{
                        "ports": [{"containerPort": 80}]
                    }]
                }
            }
        }
    }]"#);
    assert!(validate(&to_json(&doc), Some(&store)).is_ok());
}

#[test]
fn port_below_minimum() {
    let store = simple_store();
    let doc = parse(r#"[{
        "apiVersion": "apps/v1",
        "kind": "Deployment",
        "spec": {
            "selector": {},
            "template": {
                "spec": {
                    "containers": [{
                        "ports": [{"containerPort": 0}]
                    }]
                }
            }
        }
    }]"#);
    let errs = validate(&to_json(&doc), Some(&store)).unwrap_err();
    assert!(
        errs.iter()
            .any(|e| matches!(&e.kind, ValidationErrorKind::BelowMinimum { .. }))
    );
}

#[test]
fn port_above_maximum() {
    let store = simple_store();
    let doc = parse(r#"[{
        "apiVersion": "apps/v1",
        "kind": "Deployment",
        "spec": {
            "selector": {},
            "template": {
                "spec": {
                    "containers": [{
                        "ports": [{"containerPort": 70000}]
                    }]
                }
            }
        }
    }]"#);
    let errs = validate(&to_json(&doc), Some(&store)).unwrap_err();
    assert!(
        errs.iter()
            .any(|e| matches!(&e.kind, ValidationErrorKind::AboveMaximum { .. }))
    );
}

// --- x-kubernetes-int-or-string ---

#[test]
fn int_or_string_number_ok() {
    let store = make_store(
        parse(r#"{
            "test.Resource": {
                "properties": {
                    "field": {"x-kubernetes-int-or-string": true}
                }
            }
        }"#),
        parse(r#"{ "v1:Test": "test.Resource" }"#),
    );
    let doc = parse(r#"[{ "apiVersion": "v1", "kind": "Test", "field": 42 }]"#);
    assert!(validate(&to_json(&doc), Some(&store)).is_ok());
}

#[test]
fn int_or_string_string_ok() {
    let store = make_store(
        parse(r#"{
            "test.Resource": {
                "properties": {
                    "field": {"x-kubernetes-int-or-string": true}
                }
            }
        }"#),
        parse(r#"{ "v1:Test": "test.Resource" }"#),
    );
    let doc = parse(r#"[{ "apiVersion": "v1", "kind": "Test", "field": "50%" }]"#);
    assert!(validate(&to_json(&doc), Some(&store)).is_ok());
}

#[test]
fn int_or_string_boolean_error() {
    let store = make_store(
        parse(r#"{
            "test.Resource": {
                "properties": {
                    "field": {"x-kubernetes-int-or-string": true}
                }
            }
        }"#),
        parse(r#"{ "v1:Test": "test.Resource" }"#),
    );
    let doc = parse(r#"[{ "apiVersion": "v1", "kind": "Test", "field": true }]"#);
    let errs = validate(&to_json(&doc), Some(&store)).unwrap_err();
    assert_eq!(errs.len(), 1);
    assert!(matches!(
        &errs[0].kind,
        ValidationErrorKind::TypeMismatch {
            expected: "integer or string",
            ..
        }
    ));
}

// --- allOf ---

#[test]
fn allof_validates_all_sub_schemas() {
    let store = make_store(
        parse(r#"{
            "test.Resource": {
                "properties": {
                    "value": {
                        "allOf": [
                            {"type": "integer"},
                            {"minimum": 1, "maximum": 100}
                        ]
                    }
                }
            }
        }"#),
        parse(r#"{ "v1:Test": "test.Resource" }"#),
    );

    // Valid
    let doc = parse(r#"[{ "apiVersion": "v1", "kind": "Test", "value": 50 }]"#);
    assert!(validate(&to_json(&doc), Some(&store)).is_ok());

    // Below minimum
    let doc = parse(r#"[{ "apiVersion": "v1", "kind": "Test", "value": 0 }]"#);
    let errs = validate(&to_json(&doc), Some(&store)).unwrap_err();
    assert!(
        errs.iter()
            .any(|e| matches!(&e.kind, ValidationErrorKind::BelowMinimum { .. }))
    );
}

// --- $ref resolution ---

#[test]
fn ref_resolution() {
    let store = simple_store();
    let doc = parse(r#"[{
        "apiVersion": "apps/v1",
        "kind": "Deployment",
        "spec": {
            "selector": {},
            "template": {
                "spec": {
                    "containers": [{
                        "name": 123
                    }]
                }
            }
        }
    }]"#);
    let errs = validate(&to_json(&doc), Some(&store)).unwrap_err();
    assert!(errs.iter().any(|e| e.path.contains("name")
        && matches!(
            &e.kind,
            ValidationErrorKind::TypeMismatch {
                expected: "string",
                ..
            }
        )));
}

// --- Null at optional position ---

#[test]
fn null_at_optional_skip() {
    let store = simple_store();
    let doc = parse(r#"[{
        "apiVersion": "apps/v1",
        "kind": "Deployment",
        "spec": {
            "selector": {},
            "replicas": null
        }
    }]"#);
    assert!(validate(&to_json(&doc), Some(&store)).is_ok());
}

// --- Depth limit ---

#[test]
fn depth_limit_no_stack_overflow() {
    let store = make_store(
        parse(r#"{
            "test.Recursive": {
                "properties": {
                    "nested": {"$ref": "test.Recursive"}
                }
            }
        }"#),
        parse(r#"{ "v1:Test": "test.Recursive" }"#),
    );

    // Build a deeply nested doc (won't reach 64 in practice, but the schema refs itself)
    let mut inner = parse(r#"{"val": 1}"#);
    for _ in 0..10 {
        let mut m = serde_json::Map::new();
        m.insert("nested".to_string(), inner);
        inner = serde_json::Value::Object(m);
    }
    let mut top = serde_json::Map::new();
    top.insert("apiVersion".to_string(), serde_json::Value::String("v1".to_string()));
    top.insert("kind".to_string(), serde_json::Value::String("Test".to_string()));
    top.insert("nested".to_string(), inner);
    let doc = serde_json::Value::Array(vec![serde_json::Value::Object(top)]);
    // Should not panic; errors or success both acceptable
    let _ = validate(&to_json(&doc), Some(&store));
}

// --- Fallback ---

#[test]
fn fallback_no_schema_store() {
    let doc = parse(r#"[{
        "apiVersion": "apps/v1",
        "kind": "Deployment",
        "spec": {
            "template": {
                "spec": {
                    "containers": [{
                        "resources": {
                            "requests": {"cpu": "2gb"}
                        }
                    }]
                }
            }
        }
    }]"#);
    let errs = validate(&to_json(&doc), None).unwrap_err();
    assert_eq!(errs.len(), 1);
    assert!(matches!(
        &errs[0].kind,
        ValidationErrorKind::InvalidQuantity { .. }
    ));
}

#[test]
fn fallback_unknown_gvk() {
    let store = simple_store();
    let doc = parse(r#"[{
        "apiVersion": "unknown/v1",
        "kind": "Custom",
        "spec": {
            "resources": {
                "requests": {"cpu": "2gb"}
            }
        }
    }]"#);
    let errs = validate(&to_json(&doc), Some(&store)).unwrap_err();
    assert_eq!(errs.len(), 1);
    assert!(matches!(
        &errs[0].kind,
        ValidationErrorKind::InvalidQuantity { .. }
    ));
}

// --- SchemaStore loading ---

#[test]
fn schema_store_from_json_wrong_version() {
    let json = parse(r#"{"version": 1, "gvk_index": {}, "schemas": {}}"#);
    assert!(SchemaStore::from_json(to_json(&json)).is_none());
}

#[test]
fn schema_store_from_json_valid() {
    let json = parse(r#"{"version": 2, "gvk_index": {"v1:Ns": "some.Schema"}, "schemas": {"some.Schema": {"type": "object"}}}"#);
    let store = SchemaStore::from_json(to_json(&json)).unwrap();
    assert!(store.resolve_ref("some.Schema").is_some());
}

// --- Display ---

#[test]
fn error_display_format() {
    let err = ValidationError {
        doc_index: 0,
        path: "$.spec.replicas".to_string(),
        kind: ValidationErrorKind::TypeMismatch {
            expected: "integer",
            got: "string".to_string(),
        },
    };
    let s = err.message();
    assert_eq!(
        s,
        "doc[0] at $.spec.replicas: expected type integer, got string"
    );
}

#[test]
fn error_display_enum() {
    let err = ValidationError {
        doc_index: 0,
        path: "$.spec.strategy.type".to_string(),
        kind: ValidationErrorKind::InvalidEnum {
            value: "bluegreen".to_string(),
            allowed: vec!["Recreate".to_string(), "RollingUpdate".to_string()],
        },
    };
    let s = err.message();
    assert_eq!(
        s,
        "doc[0] at $.spec.strategy.type: invalid value \"bluegreen\", expected one of: Recreate, RollingUpdate"
    );
}


// --- Fallback heuristic ---

#[test]
fn fallback_validates_resources() {
    let doc = parse(r#"{
        "spec": {
            "template": {
                "spec": {
                    "containers": [{
                        "resources": {
                            "requests": {"cpu": "bad"},
                            "limits": {"memory": "1Gi"}
                        }
                    }]
                }
            }
        }
    }"#);
    let mut errors = Vec::new();
    validate_doc_fallback(&to_json(&doc), 0, &mut errors);
    assert_eq!(errors.len(), 1);
    assert!(errors[0].path.contains("requests.cpu"));
    assert_eq!(errors[0].value, "bad");
}

#[test]
fn fallback_valid_resources() {
    let doc = parse(r#"{
        "spec": {
            "template": {
                "spec": {
                    "containers": [{
                        "resources": {
                            "requests": {"cpu": "500m", "memory": "1Gi"},
                            "limits": {"cpu": "1", "memory": "2Gi"}
                        }
                    }]
                }
            }
        }
    }"#);
    let mut errors = Vec::new();
    validate_doc_fallback(&to_json(&doc), 0, &mut errors);
    assert!(errors.is_empty());
}

#[test]
fn fallback_no_resources_is_ok() {
    let doc = parse(r#"{"apiVersion": "v1", "kind": "Namespace", "metadata": {"name": "test"}}"#);
    let mut errors = Vec::new();
    validate_doc_fallback(&to_json(&doc), 0, &mut errors);
    assert!(errors.is_empty());
}

// --- Further cases ---

#[test]
fn fallback_reports_exact_path_and_json_text() {
    let doc = parse(
        r#"{"spec": {"containers": [{"resources": {"requests": {"cpu": "bad", "memory": [1, 2]}}}]}}"#,
    );
    let mut errors = Vec::new();
    validate_doc_fallback(&to_json(&doc), 3, &mut errors);
    assert_eq!(errors.len(), 2);
    assert_eq!(errors[0].doc_index, 3);
    assert_eq!(errors[0].path, "$.spec.containers[0].resources.requests.cpu");
    assert_eq!(errors[1].path, "$.spec.containers[0].resources.requests.memory");
    assert_eq!(errors[1].value, "[1,2]");
}

#[test]
fn schema_errors_have_exact_paths_and_messages() {
    let store = simple_store();
    let doc = parse(
        r#"[{"apiVersion": "apps/v1", "kind": "Deployment",
            "spec": {"selector": {}, "template": {"spec": {"containers": [
                {"name": "a"}, {"ports": [{"containerPort": 0}]}]}}}}]"#,
    );
    let errs = validate(&to_json(&doc), Some(&store)).unwrap_err();
    assert_eq!(errs.len(), 1);
    assert_eq!(errs[0].path, "$.spec.template.spec.containers[1].ports[0].containerPort");
    assert_eq!(
        errs[0].message(),
        "doc[0] at $.spec.template.spec.containers[1].ports[0].containerPort: value 0 is below minimum 1"
    );
}

#[test]
fn later_documents_are_numbered() {
    let doc = parse(
        r#"[{"kind": "A"}, {"spec": {"resources": {"limits": {"cpu": "x"}}}}]"#,
    );
    let errs = validate(&to_json(&doc), None).unwrap_err();
    assert_eq!(errs.len(), 1);
    assert_eq!(errs[0].doc_index, 1);
    assert_eq!(errs[0].message(), "doc[1] at $.spec.resources.limits.cpu: invalid quantity \"x\"");
}

#[test]
fn non_array_output_is_not_checked() {
    let doc = parse(r#"{"spec": {"resources": {"limits": {"cpu": "x"}}}}"#);
    assert!(validate(&to_json(&doc), None).is_ok());
}

#[test]
fn missing_required_message() {
    let store = simple_store();
    let doc = parse(r#"[{"apiVersion": "apps/v1", "kind": "Deployment"}]"#);
    let errs = validate(&to_json(&doc), Some(&store)).unwrap_err();
    assert_eq!(errs.len(), 1);
    assert_eq!(errs[0].message(), "doc[0] at $: missing required field \"spec\"");
}

#[test]
fn pattern_that_does_not_compile_is_skipped() {
    let store = make_store(
        parse(r#"{"t.R": {"properties": {"name": {"type": "string", "pattern": "(unclosed"}}}}"#),
        parse(r#"{"v1:T": "t.R"}"#),
    );
    let doc = parse(r#"[{"apiVersion": "v1", "kind": "T", "name": "x"}]"#);
    assert!(validate(&to_json(&doc), Some(&store)).is_ok());
}

#[test]
fn pattern_mismatch_message() {
    let store = make_store(
        parse(r#"{"t.R": {"properties": {"name": {"pattern": "^[a-z]+$"}}}}"#),
        parse(r#"{"v1:T": "t.R"}"#),
    );
    let doc = parse(r#"[{"apiVersion": "v1", "kind": "T", "name": "A1"}]"#);
    let errs = validate(&to_json(&doc), Some(&store)).unwrap_err();
    assert_eq!(
        errs[0].message(),
        "doc[0] at $.name: value \"A1\" does not match pattern \"^[a-z]+$\""
    );
}

#[test]
fn above_maximum_message_shows_fraction() {
    let store = make_store(
        parse(r#"{"t.R": {"properties": {"ratio": {"maximum": 1.5}}}}"#),
        parse(r#"{"v1:T": "t.R"}"#),
    );
    let doc = parse(r#"[{"apiVersion": "v1", "kind": "T", "ratio": 2.25}]"#);
    let errs = validate(&to_json(&doc), Some(&store)).unwrap_err();
    assert_eq!(errs[0].message(), "doc[0] at $.ratio: value 2.25 is above maximum 1.5");
}

#[test]
fn schema_store_keeps_only_string_index_entries() {
    let json = parse(r#"{"version": 2, "gvk_index": {"v1:A": "s.A", "v1:B": 3}, "schemas": {"s.A": {}}}"#);
    let store = SchemaStore::from_json(to_json(&json)).unwrap();
    assert_eq!(store.gvk_index, vec![("v1:A".to_string(), "s.A".to_string())]);
    assert!(store.resolve_ref("s.A").is_some());
    assert!(store.resolve_ref("s.B").is_none());
}

#[test]
fn schema_store_needs_all_parts() {
    let json = parse(r#"{"version": 2, "gvk_index": {}}"#);
    assert!(SchemaStore::from_json(to_json(&json)).is_none());
    let json = parse(r#"{"version": 2.0, "gvk_index": {}, "schemas": {}}"#);
    assert!(SchemaStore::from_json(to_json(&json)).is_none());
}

#[test]
fn unknown_type_name_passes_and_labels_unknown() {
    let store = make_store(
        parse(r#"{"t.R": {"properties": {"a": {"type": "weird"}, "b": {"type": "object"}}}}"#),
        parse(r#"{"v1:T": "t.R"}"#),
    );
    let doc = parse(r#"[{"apiVersion": "v1", "kind": "T", "a": 1, "b": 2}]"#);
    let errs = validate(&to_json(&doc), Some(&store)).unwrap_err();
    assert_eq!(errs.len(), 1);
    assert_eq!(errs[0].message(), "doc[0] at $.b: expected type object, got number");
}

fn render_options(store: Option<SchemaStore>) -> RenderOptions {
    RenderOptions {
        project_root: ".".to_string(),
        allow_outside_root: false,
        schema_store: store,
        timeout_ms: None,
        max_heap_mb: None,
        verbose: false,
    }
}

#[test]
fn validate_output_counts_documents() {
    let docs = to_json(&parse(
        r#"[{"apiVersion": "v1", "kind": "ConfigMap"}, {"apiVersion": "v1", "kind": "Namespace"}]"#,
    ));
    let r = validate_output(&docs, &render_options(None)).unwrap();
    assert_eq!(r.resource_count, 2);
    assert!(r.validation_errors.is_empty());
    let single = to_json(&parse(r#"{"apiVersion": "v1", "kind": "ConfigMap"}"#));
    assert_eq!(validate_output(&single, &render_options(None)).unwrap().resource_count, 1);
}

#[test]
fn validate_output_joins_errors() {
    let docs = to_json(&parse(
        r#"[{"apiVersion": "apps/v1", "kind": "Deployment", "spec": {"replicas": "three", "selector": {}}},
            {"apiVersion": "apps/v1", "kind": "Deployment"}]"#,
    ));
    let err = validate_output(&docs, &render_options(Some(simple_store()))).unwrap_err();
    let lines: Vec<&str> = err.split('\n').collect();
    assert_eq!(lines.len(), 2);
    assert!(lines[0].starts_with("doc[0] at $.spec.replicas"));
    assert!(lines[1].starts_with("doc[1] at $"));
    assert!(lines[1].contains("missing required field \"spec\""));
}

#[test]
fn join_documents_with_separators() {
    let parts = vec!["a: 1\n".to_string(), "b: 2\n".to_string()];
    assert_eq!(join_documents(&parts), "a: 1\n---\nb: 2\n");
    assert_eq!(join_documents(&vec!["x: 1\n".to_string()]), "x: 1\n");
    assert_eq!(join_documents(&Vec::new()), "");
}

#[test]
fn compile_and_emit_messages() {
    let e = CompileError::parse_failure(&vec!["a".to_string(), "b".to_string()]);
    assert!(matches!(e, CompileError::Parse(_)));
    assert_eq!(e.message(), "parse error: a; b");
    let t = CompileError::transform_failure(&vec!["x".to_string()]);
    assert_eq!(t.message(), "transform error: x");
    assert_eq!(
        EmitError::Serialize("bad".to_string()).message(),
        "YAML serialization failed: bad"
    );
}
