use vstd::prelude::*;

verus! {

/// The player, known by a name.
pub struct Player {
    name: String,
}

impl Player {
    /// A player called `name`.
    pub fn new(name: &str) -> (p: Player)
        ensures
            p.spec_name() == name@,
    {
        Player { name: name.to_owned() }
    }

    /// The player's name as text.
    pub closed spec fn spec_name(&self) -> Seq<char> {
        self.name@
    }

    /// The player's name.
    pub fn name(&self) -> (n: &str)
        ensures
            n@ == self.spec_name(),
    {
        self.name.as_str()
    }
}

/// Settings of a game session.
#[derive(Clone, Debug)]
pub struct GameConfig {
    pub collision_enabled: bool,
}

impl GameConfig {
    /// The default settings: collisions are on.
    pub fn new() -> (c: GameConfig)
        ensures
            c.collision_enabled,
    {
        GameConfig { collision_enabled: true }
    }

    /// These settings with collisions turned on or off.
    pub fn with_collision_enabled(self, enabled: bool) -> (c: GameConfig)
        ensures
            c.collision_enabled == enabled,
    {
        let mut c = self;
        c.collision_enabled = enabled;
        c
    }
}

} // verus!
