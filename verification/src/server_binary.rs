//! Where the server binary that is bundled with the application lies.
//!
//! The binary is a resource of the packaged application. The directory that
//! holds the resources depends on how the application was packaged and
//! installed, so the caller looks it up and hands in the outcome: the
//! directory, or the cause of the failed lookup as text.

use crate::paths::{final_component, is_component, join, joined, lemma_final_component_of_joined};
use vstd::prelude::*;

verus! {

/// The file name of the bundled server binary.
pub const SERVER_BINARY_NAME: &'static str = "remote-worker-linux-x64";

/// The path of the bundled server binary: the binary's file name under the
/// resource directory. Where the lookup of the resource directory failed,
/// the reply is a failure with the cause as it came. Whether a file exists at
/// the path is not looked into.
pub fn get_server_binary_path(resource_dir: Result<&str, String>) -> (path: Result<String, String>)
    ensures
        match resource_dir {
            Ok(dir) => path matches Ok(resolved) && resolved@ == joined(
                dir@,
                SERVER_BINARY_NAME@,
            ),
            Err(cause) => path == Err::<String, String>(cause),
        },
        path matches Ok(resolved) ==> final_component(resolved@) == SERVER_BINARY_NAME@,
        resource_dir matches Err(cause) && cause@.len() > 0 ==> (path matches Err(text)
            && text@.len() > 0),
{
    match resource_dir {
        Ok(dir) => {
            proof {
                lemma_server_binary_name_is_component();
                lemma_final_component_of_joined(dir@, SERVER_BINARY_NAME@);
            }
            Ok(join(dir, SERVER_BINARY_NAME))
        },
        Err(cause) => Err(cause),
    }
}

/// The server binary's file name is a single path component.
pub proof fn lemma_server_binary_name_is_component()
    ensures
        is_component(SERVER_BINARY_NAME@),
{
    reveal_strlit("remote-worker-linux-x64");
}

} // verus!
