//! Line break opportunities.

use cellwidth::{line_breaks, Break};

fn all_breaks(s: &str) -> Vec<(usize, Break)> {
    let mut it = line_breaks(s);
    let mut out = Vec::new();
    while let Some(b) = it.next() {
        out.push(b);
    }
    out
}

/// Mandatory breaks are the ones the text itself demands.
#[test]
fn mandatory_versus_allowed() {
    let b = all_breaks("a\nb");
    assert_eq!(b, [(2, Break::Mandatory), (3, Break::Mandatory)]);
    let b = all_breaks("a b");
    assert_eq!(b, [(2, Break::Allowed), (3, Break::Mandatory)]);
}
