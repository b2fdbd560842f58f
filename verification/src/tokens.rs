use vstd::prelude::*;
use vstd::string::StrSliceExecFns;

verus! {

/// Characters that every skill listing costs on top of its name and description.
pub const SKILL_LISTING_OVERHEAD_CHARS: usize = 204;

/// Tokens that a non-empty skill menu costs once, whatever its size.
pub const MENU_PREAMBLE_TOKENS: u64 = 74;

/// `ceil(chars / 4)` for a listing whose name and description hold the given
/// numbers of Unicode scalar values.
pub open spec fn estimate_spec(name_chars: nat, description_chars: nat) -> nat {
    ((name_chars + 1 + description_chars + SKILL_LISTING_OVERHEAD_CHARS + 3) / 4) as nat
}

/// The menu cost of a pack whose listings sum to `menu_sum` tokens.
pub open spec fn with_preamble_spec(menu_sum: nat) -> nat {
    if menu_sum == 0 {
        0
    } else {
        (menu_sum + MENU_PREAMBLE_TOKENS) as nat
    }
}

/// Estimated tokens of one skill listing: `ceil(chars / 4)` over the name, one
/// separator, the description and the fixed listing overhead, counting Unicode
/// scalar values rather than bytes.
pub fn estimate(name: &str, description: &str) -> (tokens: u64)
    ensures
        tokens == estimate_spec(name@.len(), description@.len()),
{
    let name_chars = name.unicode_len() as u128;
    let description_chars = description.unicode_len() as u128;
    let chars = name_chars + 1 + description_chars + SKILL_LISTING_OVERHEAD_CHARS as u128;
    let tokens = (chars + 3) / 4;
    assert(tokens <= u64::MAX) by (nonlinear_arith)
        requires
            name_chars <= usize::MAX,
            description_chars <= usize::MAX,
            chars == name_chars + 1 + description_chars + 204,
            tokens == (chars + 3) / 4,
            usize::MAX <= u64::MAX,
    ;
    tokens as u64
}

/// Adds the menu preamble once, and only to a non-empty menu.
pub fn with_preamble(menu_sum: u64) -> (total: u64)
    requires
        menu_sum + MENU_PREAMBLE_TOKENS <= u64::MAX,
    ensures
        total == with_preamble_spec(menu_sum as nat),
{
    if menu_sum == 0 {
        0
    } else {
        menu_sum + MENU_PREAMBLE_TOKENS
    }
}

} // verus!
