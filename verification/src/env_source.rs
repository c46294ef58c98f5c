//! The environment-variable source's naming rule.
//!
//! The variable looked up is the secret's name, with `_V<version>`
//! appended when the registration names a version.  The lookup itself is
//! process I/O and lives with the caller that owns it; this module pins
//! the name it must use.

use vstd::prelude::*;
use vstd::string::StringExecFns;

use crate::common_types::SecretVaultRef;

verus! {

/// The environment variable a registration is looked up under.
pub fn env_secret_name(secret_ref: &SecretVaultRef) -> (r: String)
    ensures
        r@ == secret_ref@.key.secret_name + (match secret_ref@.key.secret_version {
            Option::Some(v) => "_V"@ + v,
            Option::None => Seq::<char>::empty(),
        }),
{
    let mut out = secret_ref.key.secret_name.value().clone();
    match &secret_ref.key.secret_version {
        Option::Some(version) => {
            out.append("_V");
            out.append(version.value().as_str());
            proof {
                assert(out@ =~= secret_ref@.key.secret_name + ("_V"@ + version@));
            }
        },
        Option::None => {
            proof {
                assert(out@ =~= secret_ref@.key.secret_name + Seq::<char>::empty());
            }
        },
    }
    out
}

} // verus!
