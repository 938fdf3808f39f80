//! Desktop capabilities used by adapters and diagnostics.
use vstd::prelude::*;
use crate::decode::text_chars;
use crate::text::{eq_ignore_ascii_case, eq_ignore_case, split, split_chars};

verus! {

#[derive(Clone, Copy, Debug, PartialEq, Eq, Structural)]
pub enum Desktop {
    KdeWayland,
    X11,
    Other,
}

/// X11 sessions first; KDE on Wayland when a `:`-separated desktop entry is
/// KDE (ASCII case ignored); anything else is another desktop.
pub open spec fn detect_spec(desktops: Seq<char>, session: Seq<char>) -> Desktop {
    if eq_ignore_ascii_case(session, "x11"@) {
        Desktop::X11
    } else if eq_ignore_ascii_case(session, "wayland"@) && exists|i: int|
        0 <= i < split(desktops, ':').len() && #[trigger] eq_ignore_ascii_case(
            split(desktops, ':')[i],
            "KDE"@,
        ) {
        Desktop::KdeWayland
    } else {
        Desktop::Other
    }
}

impl Desktop {
    pub fn detect(desktops: &str, session: &str) -> (r: Desktop)
        ensures
            r == detect_spec(desktops@, session@),
    {
        let session_chars = text_chars(session);
        let x11 = text_chars("x11");
        if eq_ignore_case(session_chars.as_slice(), x11.as_slice()) {
            return Desktop::X11;
        }
        let wayland = text_chars("wayland");
        if !eq_ignore_case(session_chars.as_slice(), wayland.as_slice()) {
            return Desktop::Other;
        }
        let all = text_chars(desktops);
        let kde = text_chars("KDE");
        let pieces = split_chars(all.as_slice(), ':');
        let ghost parts = split(desktops@, ':');
        assert(parts.len() == pieces@.len());
        let mut i: usize = 0;
        while i < pieces.len()
            invariant
                i <= pieces@.len(),
                parts == split(desktops@, ':'),
                parts.len() == pieces@.len(),
                forall|k: int| 0 <= k < parts.len() ==> #[trigger] parts[k] == pieces@[k]@,
                kde@ == "KDE"@,
                eq_ignore_ascii_case(session@, "wayland"@),
                !eq_ignore_ascii_case(session@, "x11"@),
                forall|k: int| 0 <= k < i ==> !#[trigger] eq_ignore_ascii_case(parts[k], "KDE"@),
            decreases pieces@.len() - i,
        {
            if eq_ignore_case(pieces[i], kde.as_slice()) {
                assert(eq_ignore_ascii_case(parts[i as int], "KDE"@));
                assert(exists|j: int|
                    0 <= j < split(desktops@, ':').len() && #[trigger] eq_ignore_ascii_case(
                        split(desktops@, ':')[j],
                        "KDE"@,
                    ));
                return Desktop::KdeWayland;
            }
            i = i + 1;
        }
        Desktop::Other
    }
}

} // verus!
