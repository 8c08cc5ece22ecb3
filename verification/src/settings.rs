//! The editor's settings: the command path and the body height it keeps in
//! its own configuration file.

use vstd::prelude::*;

verus! {

/// The editor's persisted settings.
#[derive(Debug, Clone, PartialEq)]
pub struct Settings {
    /// The command to launch; absent, the default command is used.
    pub apinae_path: Option<String>,
    /// The height of the body pane.
    pub body_height: String,
}

impl Settings {
    /// Build a settings value from its parts.
    #[must_use]
    pub fn new(apinae_path: Option<String>, body_height: String) -> (r: Settings)
        ensures
            r == (Settings { apinae_path, body_height }),
    {
        Settings { apinae_path, body_height }
    }
}

impl Default for Settings {
    /// No command path, and the default body height.
    fn default() -> (r: Settings)
        ensures
            r.apinae_path is None,
            r.body_height@ == "8pc"@,
    {
        Settings { apinae_path: Option::None, body_height: default_body_height() }
    }
}

/// The default height of the body pane.
pub fn default_body_height() -> (r: String)
    ensures
        r@ == "8pc"@,
{
    "8pc".to_owned()
}

} // verus!
