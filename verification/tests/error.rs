use harmony::error::HarmonyError;

#[test]
fn constructors_set_kind_and_default_status() {
    let c = HarmonyError::connection("down");
    assert!(c.is_connection_failure() && c.is_temporary());
    let s = HarmonyError::send("x");
    assert!(s.is_send_failure() && s.is_temporary());
    let d = HarmonyError::discovery("x");
    assert!(d.is_discovery_failure() && d.is_temporary());
    let g = HarmonyError::config("bad");
    assert!(g.is_config_invalid() && !g.is_temporary());
    let i = HarmonyError::internal("bug");
    assert!(i.is_internal() && !i.is_temporary());
    assert!(!i.is_send_failure());
}

#[test]
fn status_can_be_overridden() {
    let e = HarmonyError::send("x").permanent();
    assert!(!e.is_temporary());
    assert!(e.is_send_failure());
    let t = HarmonyError::config("y").temporary();
    assert!(t.is_temporary());
    assert_eq!(t.message(), "y");
}

#[test]
fn text_names_the_status() {
    assert_eq!(HarmonyError::send("boom").to_text(), "boom (temporary)");
    assert_eq!(HarmonyError::config("bad").to_text(), "bad (permanent)");
}

#[test]
fn a_chain_of_status_changes_keeps_the_kind() {
    let e = HarmonyError::connection("x").permanent().temporary().permanent();
    assert!(e.is_connection_failure());
    assert!(!e.is_send_failure() && !e.is_discovery_failure() && !e.is_config_invalid() && !e.is_internal());
    assert!(!e.is_temporary());
    assert_eq!(e.message(), "x");
}
