//! The file source's naming rule.
//!
//! A secret is read from `<root>/<name>[_v<version>]`.  The read itself
//! is file I/O and lives with the caller that owns it; this module pins
//! the path it must use.

use vstd::prelude::*;
use vstd::string::StringExecFns;

use crate::common_types::SecretVaultRef;

verus! {

/// Where the file source starts looking.
pub struct FilesSourceOptions {
    pub root_path: Option<String>,
}

impl FilesSourceOptions {
    /// No root: paths are taken as given.
    pub fn new() -> (r: Self)
        ensures
            r.root_path is None,
    {
        Self { root_path: None }
    }

    pub fn with_root_path(self, value: String) -> (r: Self)
        ensures
            r.root_path == Some(value),
    {
        Self { root_path: Some(value) }
    }
}

/// The path a registration's secret file is read from.
pub fn secret_file_name(options: &FilesSourceOptions, secret_ref: &SecretVaultRef) -> (r: String)
    ensures
        r@ == (match options.root_path {
            Option::Some(root) => root@ + "/"@,
            Option::None => Seq::<char>::empty(),
        }) + secret_ref@.key.secret_name + (match secret_ref@.key.secret_version {
            Option::Some(v) => "_v"@ + v,
            Option::None => Seq::<char>::empty(),
        }),
{
    let mut out = match &options.root_path {
        Option::Some(root) => {
            let mut prefix = root.clone();
            prefix.append("/");
            prefix
        },
        Option::None => String::new(),
    };
    out.append(secret_ref.key.secret_name.value().as_str());
    match &secret_ref.key.secret_version {
        Option::Some(version) => {
            out.append("_v");
            out.append(version.value().as_str());
        },
        Option::None => {},
    }
    proof {
        assert(out@ =~= (match options.root_path {
            Option::Some(root) => root@ + "/"@,
            Option::None => Seq::<char>::empty(),
        }) + secret_ref@.key.secret_name + (match secret_ref@.key.secret_version {
            Option::Some(v) => "_v"@ + v,
            Option::None => Seq::<char>::empty(),
        }));
    }
    out
}

} // verus!
