//! The scenes of the web front page.

use vstd::prelude::*;

verus! {

/// A page of the front site.
#[derive(Debug, Clone, Copy, PartialEq, Eq, Structural)]
pub enum Scene {
    Home,
    Contact,
    NotFound,
}

/// The title of a scene.
pub open spec fn scene_title(s: Scene) -> Seq<char> {
    match s {
        Scene::Home => "Home"@,
        Scene::Contact => "Contact"@,
        Scene::NotFound => "Not found"@,
    }
}

impl Scene {
    /// The scene's title, as shown to visitors.
    pub fn title(&self) -> (r: String)
        ensures
            r@ == scene_title(*self),
    {
        match self {
            Scene::Home => String::from_str("Home"),
            Scene::Contact => String::from_str("Contact"),
            Scene::NotFound => String::from_str("Not found"),
        }
    }
}

} // verus!
