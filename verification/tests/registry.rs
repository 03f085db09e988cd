use moonbridge::protocol::ir::Protocol;
use moonbridge::protocol::registry::{builtin_registry, Adapter, Registry};

#[test]
fn builtin_registry_covers_full_matrix() {
    let reg = builtin_registry();
    assert_eq!(reg.client_len(), 4, "all four client protocols are registered");
    assert_eq!(reg.provider_len(), 4, "all four upstream protocols are registered");
    for p in Protocol::all() {
        assert!(reg.client(p).is_some(), "{p:?} lacks a client adapter");
        assert!(reg.client_stream(p).is_some(), "{p:?} lacks a client stream adapter");
        assert!(reg.provider(p).is_some(), "{p:?} lacks an upstream adapter");
        assert!(reg.provider_stream(p).is_some(), "{p:?} lacks an upstream stream adapter");
        assert_eq!(reg.client(p).unwrap().protocol(), p);
    }
}

#[test]
fn registering_replaces_by_protocol() {
    let mut reg = Registry::new();
    assert_eq!(reg.client_len(), 0);
    assert!(reg.client(Protocol::Anthropic).is_none());
    reg.register_client(Adapter::of(Protocol::Anthropic));
    reg.register_client(Adapter::of(Protocol::Anthropic));
    assert_eq!(reg.client_len(), 1);
    assert_eq!(reg.provider_len(), 0);
    assert_eq!(reg.client(Protocol::Anthropic).unwrap().protocol(), Protocol::Anthropic);
    assert!(reg.provider(Protocol::Anthropic).is_none());
}
