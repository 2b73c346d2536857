use openconstruct::{publish_lines, timestamp_prefix};

#[test]
fn timestamps_are_cut_to_the_second() {
    assert_eq!(timestamp_prefix("2025-01-02T03:04:05.678+00:00"), "2025-01-02T03:04:05");
    assert_eq!(timestamp_prefix("2025-01-02T03:04:05"), "2025-01-02T03:04:05");
    assert_eq!(timestamp_prefix("short"), "short");
    assert_eq!(timestamp_prefix(""), "");
    // Byte 19 falls inside the two-byte 'é': the stamp is shown whole.
    let odd = "aaaaaaaaaaaaaaaaaaé-tail";
    assert_eq!(timestamp_prefix(odd), odd);
}

#[test]
fn publish_instructions_per_target() {
    assert_eq!(
        publish_lines("npm"),
        vec![
            "Publishing to npm...",
            "  Running: npm publish",
            "  (Requires npm login)",
            "✓ Publish instructions printed (auto-publish coming soon)",
        ]
    );
    assert_eq!(
        publish_lines("crates")[2],
        "  (Requires crates.io token — set with: cargo login <token>)"
    );
    assert_eq!(publish_lines("pypi")[1], "  Running: python -m build && twine upload dist/*");
    assert_eq!(publish_lines("all")[1], "  Would publish to: crates.io, PyPI, npm");
    assert_eq!(publish_lines("all").len(), 4);
    let unknown = publish_lines("gems");
    assert_eq!(unknown.len(), 3);
    assert_eq!(unknown[1], "  Unknown target: gems");
}
