//! Text that the command line tool shows: timestamps cut to their date and
//! time, and the publishing instructions for each target.

use vstd::prelude::*;
use vstd::string::StringSliceAdditionalSpecFns;
use vstd::utf8::is_char_boundary;

verus! {

/// How many bytes of an RFC 3339 timestamp hold its date and time to the
/// second (`YYYY-MM-DDTHH:MM:SS`).
pub const STAMP_BYTES: usize = 19;

/// Where a timestamp is cut: after its first `STAMP_BYTES` bytes, or at its
/// end when it is shorter.
pub open spec fn stamp_cut(stamp: &str) -> int {
    if stamp.len() < STAMP_BYTES { stamp.len() as int } else { STAMP_BYTES as int }
}

/// Whether a timestamp can be cut where [`stamp_cut`] says without splitting
/// a character.
pub open spec fn stamp_cuttable(stamp: &str) -> bool {
    is_char_boundary(stamp.spec_bytes(), stamp_cut(stamp))
}

/// The date and time part of a timestamp: its first `STAMP_BYTES` bytes (all
/// of it when shorter).  A timestamp that cannot be cut there without
/// splitting a character is shown whole.
pub fn timestamp_prefix(stamp: &str) -> (r: &str)
    ensures
        stamp_cuttable(stamp) ==> r.spec_bytes() == stamp.spec_bytes().subrange(0, stamp_cut(stamp)),
        !stamp_cuttable(stamp) ==> r@ == stamp@,
{
    let n = if stamp.len() < STAMP_BYTES {
        stamp.len()
    } else {
        STAMP_BYTES
    };
    if stamp.is_char_boundary(n) {
        let (head, _tail) = stamp.split_at(n);
        head
    } else {
        stamp
    }
}

/// The lines printed for publishing to `target`, after the first line that
/// names the target and before the closing line.
pub open spec fn publish_plan(target: Seq<char>) -> Seq<Seq<char>> {
    if target == "crates"@ {
        seq!["  Running: cargo publish"@, "  (Requires crates.io token — set with: cargo login <token>)"@]
    } else if target == "pypi"@ {
        seq!["  Running: python -m build && twine upload dist/*"@, "  (Requires PyPI token — set in ~/.pypirc)"@]
    } else if target == "npm"@ {
        seq!["  Running: npm publish"@, "  (Requires npm login)"@]
    } else if target == "all"@ {
        seq!["  Would publish to: crates.io, PyPI, npm"@, "  Run with --target <specific> for individual publishes"@]
    } else {
        seq!["  Unknown target: "@ + target]
    }
}

/// The views of a sequence of lines.
pub open spec fn line_views(lines: Seq<String>) -> Seq<Seq<char>> {
    lines.map_values(|l: String| l@)
}

/// The full instructions printed for publishing to `target`: a heading that
/// names it, the steps for that target (`crates`, `pypi`, `npm` or `all`; any
/// other name is reported unknown), and a closing line.
pub fn publish_lines(target: &str) -> (r: Vec<String>)
    ensures
        line_views(r@) == seq!["Publishing to "@ + target@ + "..."@] + publish_plan(target@)
            + seq!["✓ Publish instructions printed (auto-publish coming soon)"@],
{
    proof {
        reveal_strlit("crates");
        reveal_strlit("pypi");
        reveal_strlit("npm");
        reveal_strlit("all");
        assert("crates"@.len() != "pypi"@.len());
        assert("crates"@.len() != "npm"@.len());
        assert("crates"@.len() != "all"@.len());
        assert("pypi"@.len() != "npm"@.len());
        assert("pypi"@.len() != "all"@.len());
        assert("npm"@ != "all"@) by {
            assert("npm"@[0] != "all"@[0]);
        }
    }
    let mut lines: Vec<String> = Vec::new();
    lines.push("Publishing to ".to_owned().concat(target).concat("..."));
    let key = target.to_owned();
    if key == "crates".to_owned() {
        lines.push("  Running: cargo publish".to_owned());
        lines.push("  (Requires crates.io token — set with: cargo login <token>)".to_owned());
    } else if key == "pypi".to_owned() {
        lines.push("  Running: python -m build && twine upload dist/*".to_owned());
        lines.push("  (Requires PyPI token — set in ~/.pypirc)".to_owned());
    } else if key == "npm".to_owned() {
        lines.push("  Running: npm publish".to_owned());
        lines.push("  (Requires npm login)".to_owned());
    } else if key == "all".to_owned() {
        lines.push("  Would publish to: crates.io, PyPI, npm".to_owned());
        lines.push("  Run with --target <specific> for individual publishes".to_owned());
    } else {
        lines.push("  Unknown target: ".to_owned().concat(target));
    }
    lines.push("✓ Publish instructions printed (auto-publish coming soon)".to_owned());
    assert(line_views(lines@) =~= seq!["Publishing to "@ + target@ + "..."@] + publish_plan(target@)
        + seq!["✓ Publish instructions printed (auto-publish coming soon)"@]);
    lines
}

} // verus!
