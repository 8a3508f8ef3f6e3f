use vstd::prelude::*;

use crate::text::same_text;

verus! {

/// The name under which this debug adapter is registered with the editor.
pub const ADAPTER_NAME: &'static str = "cortex-debug-zed";

/// The error given for a request addressed to another debug adapter.
pub open spec fn unsupported_adapter_message(adapter_name: Seq<char>) -> Seq<char> {
    "Unsupported debug adapter name '"@ + adapter_name + "', expected '"@ + ADAPTER_NAME@ + "'"@
}

/// What checking the adapter name of a request gives: success exactly for
/// this adapter's own name, and otherwise the error that names both.
pub open spec fn adapter_check(adapter_name: Seq<char>) -> Result<(), Seq<char>> {
    if adapter_name == ADAPTER_NAME@ {
        Ok(())
    } else {
        Err(unsupported_adapter_message(adapter_name))
    }
}

/// Accepts a request addressed to this debug adapter and refuses any other.
pub fn verify_adapter_name(adapter_name: &str) -> (r: Result<(), String>)
    ensures
        r is Ok <==> adapter_check(adapter_name@) is Ok,
        r is Ok <==> adapter_name@ == ADAPTER_NAME@,
        r matches Err(msg) ==> adapter_check(adapter_name@) == Err::<(), Seq<char>>(msg@),
{
    if !same_text(adapter_name, ADAPTER_NAME) {
        let mut msg = String::from_str("Unsupported debug adapter name '");
        msg.append(adapter_name);
        msg.append("', expected '");
        msg.append(ADAPTER_NAME);
        msg.append("'");
        Err(msg)
    } else {
        Ok(())
    }
}

/// The adapter's name is "cortex-debug-zed".
pub proof fn law_adapter_name()
    ensures
        ADAPTER_NAME@ == "cortex-debug-zed"@,
{
}

/// Checking the adapter name succeeds for this adapter's own name and for no
/// other; any other name is refused with the error naming it and the
/// expected name.
pub proof fn law_only_own_adapter_accepted(adapter_name: Seq<char>)
    ensures
        adapter_check(adapter_name) is Ok <==> adapter_name == ADAPTER_NAME@,
        adapter_name != ADAPTER_NAME@ ==> adapter_check(adapter_name) == Err::<(), Seq<char>>(
            "Unsupported debug adapter name '"@ + adapter_name + "', expected 'cortex-debug-zed'"@,
        ),
{
    reveal_strlit("', expected '");
    reveal_strlit("'");
    reveal_strlit("', expected 'cortex-debug-zed'");
    reveal_strlit("cortex-debug-zed");
    let prefix = "Unsupported debug adapter name '"@ + adapter_name;
    assert(prefix + "', expected '"@ + ADAPTER_NAME@ + "'"@ =~= prefix
        + "', expected 'cortex-debug-zed'"@);
}
} // verus!
