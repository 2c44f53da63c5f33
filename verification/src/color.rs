//! Terminal colours.
use vstd::prelude::*;

verus! {

pub const RESET: &'static str = "\x1b[0m";

pub const BOLD: &'static str = "\x1b[1m";

pub const DIM: &'static str = "\x1b[2m";

pub const ITALIC: &'static str = "\x1b[3m";

pub const RED: &'static str = "\x1b[38;5;203m";

pub const ORANGE: &'static str = "\x1b[38;5;215m";

pub const GREEN: &'static str = "\x1b[38;5;114m";

pub const TEAL: &'static str = "\x1b[38;5;79m";

pub const YELLOW: &'static str = "\x1b[38;5;221m";

pub const BLUE: &'static str = "\x1b[38;5;75m";

pub const CYAN: &'static str = "\x1b[38;5;80m";

pub const MAGENTA: &'static str = "\x1b[38;5;176m";

pub const PURPLE: &'static str = "\x1b[38;5;141m";

pub const GRAY: &'static str = "\x1b[38;5;244m";

pub const DARK_GRAY: &'static str = "\x1b[38;5;238m";

/// The colours of a bar as it fills: the stop at `i` of five, the last one for
/// anything beyond.
pub open spec fn ramp(i: nat) -> Seq<char> {
    if i == 0 {
        "\x1b[38;5;75m"@
    } else if i == 1 {
        "\x1b[38;5;80m"@
    } else if i == 2 {
        "\x1b[38;5;79m"@
    } else if i == 3 {
        "\x1b[38;5;114m"@
    } else {
        "\x1b[38;5;120m"@
    }
}

/// The colours of a bar as it fills.
pub fn ramp_color(i: usize) -> (r: &'static str)
    ensures
        r@ == ramp(i as nat),
{
    if i == 0 {
        "\x1b[38;5;75m"
    } else if i == 1 {
        "\x1b[38;5;80m"
    } else if i == 2 {
        "\x1b[38;5;79m"
    } else if i == 3 {
        "\x1b[38;5;114m"
    } else {
        "\x1b[38;5;120m"
    }
}

/// A bar has five colours, one after another; the last stays.
pub proof fn ramp_has_five_stops(i: nat, k: nat)
    ensures
        ramp(i) == ramp(k) <==> i == k || (i >= 4 && k >= 4),
{
    assert("\x1b[38;5;75m"@.len() == 10 && "\x1b[38;5;75m"@[7] == '7' && "\x1b[38;5;75m"@[8] == '5') by {
        reveal_strlit("\x1b[38;5;75m");
    }
    assert("\x1b[38;5;80m"@.len() == 10 && "\x1b[38;5;80m"@[7] == '8' && "\x1b[38;5;80m"@[8] == '0') by {
        reveal_strlit("\x1b[38;5;80m");
    }
    assert("\x1b[38;5;79m"@.len() == 10 && "\x1b[38;5;79m"@[7] == '7' && "\x1b[38;5;79m"@[8] == '9') by {
        reveal_strlit("\x1b[38;5;79m");
    }
    assert("\x1b[38;5;114m"@.len() == 11 && "\x1b[38;5;114m"@[7] == '1' && "\x1b[38;5;114m"@[8] == '1') by {
        reveal_strlit("\x1b[38;5;114m");
    }
    assert("\x1b[38;5;120m"@.len() == 11 && "\x1b[38;5;120m"@[7] == '1' && "\x1b[38;5;120m"@[8] == '2') by {
        reveal_strlit("\x1b[38;5;120m");
    }
}

} // verus!
