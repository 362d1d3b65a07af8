use unifi::registry::{score_scanner, ScannerRegistry};
use unifi::scanner_core::{Platform, ScannerCapabilities, ScannerInfo};

struct MockScanner {
    name: &'static str,
    has_ie: bool,
    needs_privilege: bool,
}

impl MockScanner {
    fn capabilities(&self) -> ScannerCapabilities {
        ScannerCapabilities {
            has_ie_data: self.has_ie,
            has_bssid: true,
            has_signal: true,
            has_security: true,
            app_store_compatible: !self.needs_privilege,
        }
    }

    /// What the scanner reports of itself, on a platform.
    fn info(&self, platform: Platform) -> ScannerInfo {
        ScannerInfo {
            name: self.name.to_string(),
            description: String::new(),
            platforms: vec![Platform::MacOS],
            capabilities: self.capabilities(),
            requires_privilege: self.needs_privilege,
            available: platform == Platform::MacOS,
        }
    }
}

fn register(r: &mut ScannerRegistry<MockScanner>, s: MockScanner, platform: Platform) {
    let info = s.info(platform);
    r.register(s, info);
}

#[test]
fn test_registry() {
    let mut registry = ScannerRegistry::new();
    register(&mut registry, MockScanner { name: "test1", has_ie: true, needs_privilege: false }, Platform::MacOS);
    register(&mut registry, MockScanner { name: "test2", has_ie: false, needs_privilege: false }, Platform::MacOS);
    assert_eq!(registry.count(), 2);
    assert!(registry.get("test1").is_some());
    assert!(registry.get("test2").is_some());
    assert!(registry.get("test3").is_none());
}

#[test]
fn test_scanner_scoring() {
    let scanner1 = MockScanner { name: "scanner1", has_ie: true, needs_privilege: false };
    let scanner2 = MockScanner { name: "scanner2", has_ie: false, needs_privilege: true };
    let score1 = score_scanner(scanner1.capabilities(), scanner1.needs_privilege);
    let score2 = score_scanner(scanner2.capabilities(), scanner2.needs_privilege);
    assert!(score1 > score2);
    assert_eq!(score1, 100 + 50 + 30 + 70 + 20);
    assert_eq!(score2, 50 + 30);
}

#[test]
fn test_unregister() {
    let mut registry = ScannerRegistry::new();
    register(&mut registry, MockScanner { name: "test", has_ie: true, needs_privilege: false }, Platform::MacOS);
    assert_eq!(registry.count(), 1);
    assert!(registry.unregister("test"));
    assert_eq!(registry.count(), 0);
    assert!(!registry.unregister("test"));
}

#[test]
fn test_list_available() {
    let mut registry = ScannerRegistry::new();
    register(&mut registry, MockScanner { name: "available", has_ie: true, needs_privilege: false }, Platform::MacOS);
    let available = registry.list_available();
    assert!(!available.is_empty());
    let mut elsewhere = ScannerRegistry::new();
    register(&mut elsewhere, MockScanner { name: "available", has_ie: true, needs_privilege: false }, Platform::Linux);
    assert!(elsewhere.list_available().is_empty());
    assert_eq!(elsewhere.list().len(), 1);
}

#[test]
fn test_registry_default_and_best() {
    let mut registry = ScannerRegistry::new();
    register(&mut registry, MockScanner { name: "plain", has_ie: false, needs_privilege: false }, Platform::MacOS);
    register(&mut registry, MockScanner { name: "root", has_ie: true, needs_privilege: true }, Platform::MacOS);
    register(&mut registry, MockScanner { name: "rich", has_ie: true, needs_privilege: false }, Platform::MacOS);
    // A scanner with IE data that needs no privileges goes first.
    assert_eq!(registry.get_default().map(|s| s.name), Some("rich"));
    assert_eq!(registry.get_best().map(|s| s.name), Some("rich"));
    assert!(registry.unregister("rich"));
    assert_eq!(registry.get_default().map(|s| s.name), Some("plain"));
    // root: 100 + 50 + 30 + 0 + 0 = 180; plain: 0 + 50 + 30 + 70 + 20 = 170.
    assert_eq!(registry.get_best().map(|s| s.name), Some("root"));
    registry.clear();
    assert!(registry.get_default().is_none());
    assert!(registry.get_best().is_none());
}

#[test]
fn test_register_replaces_same_name() {
    let mut registry = ScannerRegistry::new();
    register(&mut registry, MockScanner { name: "x", has_ie: false, needs_privilege: false }, Platform::MacOS);
    register(&mut registry, MockScanner { name: "x", has_ie: true, needs_privilege: false }, Platform::MacOS);
    assert_eq!(registry.count(), 1);
    assert!(registry.get("x").unwrap().has_ie);
}
