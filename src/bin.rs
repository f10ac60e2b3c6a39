use vstd::prelude::*;
use vstd::string::StringExecFns;
use crate::text::push_char;

verus! {

/// The display label of a bin-category character.
pub open spec fn bin_label(code: char) -> Seq<char> {
    if code == 'B' {
        "Black Bin"@
    } else if code == 'G' {
        "Green Bin"@
    } else if code == 'R' {
        "Brown Bin"@
    } else {
        "Unknown Bin '"@ + seq![code, '\'']
    }
}

/// Maps a bin-category character to its label; an unrecognised character
/// is kept in the label so that it surfaces in the notification.
pub fn format_bin(bin_code: char) -> (r: String)
    ensures
        r@ == bin_label(bin_code),
{
    match bin_code {
        'B' => String::from_str("Black Bin"),
        'G' => String::from_str("Green Bin"),
        'R' => String::from_str("Brown Bin"),
        other => {
            let mut s = String::from_str("Unknown Bin '");
            push_char(&mut s, other);
            push_char(&mut s, '\'');
            proof {
                assert(s@ =~= "Unknown Bin '"@ + seq![other, '\'']);
            }
            s
        },
    }
}

} // verus!
