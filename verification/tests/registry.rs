use cumulus_host::registry::{CapabilityModule, Registry};

#[test]
fn registering_again_replaces_the_table() {
    let mut reg = Registry::new();
    reg.register(
        "net".to_string(),
        CapabilityModule {
            functions: vec!["fetch".to_string(), "send".to_string()],
        },
    );
    reg.register(
        "net".to_string(),
        CapabilityModule {
            functions: vec!["get".to_string()],
        },
    );
    let m = reg.lookup(&"net".to_string()).unwrap();
    assert_eq!(m.functions, vec!["get".to_string()]);
}

#[test]
fn distinct_names_stay_mounted() {
    let mut reg = Registry::new();
    reg.register(
        "log".to_string(),
        CapabilityModule {
            functions: vec!["info".to_string()],
        },
    );
    reg.register(
        "color".to_string(),
        CapabilityModule {
            functions: vec!["red".to_string()],
        },
    );
    assert_eq!(
        reg.lookup(&"log".to_string()).unwrap().functions,
        vec!["info".to_string()]
    );
    assert_eq!(
        reg.lookup(&"color".to_string()).unwrap().functions,
        vec!["red".to_string()]
    );
}

#[test]
fn unknown_name_is_not_mounted() {
    let reg = Registry::new();
    assert!(reg.lookup(&"http".to_string()).is_none());
}
