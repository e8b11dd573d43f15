//! Per-connection configuration.
//!
//! Only the items listed below exist; each has a default and can be read
//! and overwritten, but none can be added:
//!  - BackPressure (default 20)
//!  - UnknownPosition (default 0)
//!  - ProcessSpawnTimeout (default 10)
//!  - BreakpointTimeout (default 2)
//!  - PrintVariableTimeout (default 2)

use vstd::prelude::*;
use crate::text::str_eq;

verus! {

/// The configuration of one connection.
#[derive(Clone, Copy, Debug)]
pub struct Config {
    back_pressure: i64,
    unknown_position: i64,
    process_spawn_timeout: i64,
    breakpoint_timeout: i64,
    print_variable_timeout: i64,
}

/// The names of the configuration items, in a fixed order.
pub open spec fn config_keys() -> Seq<Seq<char>> {
    seq![
        "BackPressure"@,
        "UnknownPosition"@,
        "ProcessSpawnTimeout"@,
        "BreakpointTimeout"@,
        "PrintVariableTimeout"@,
    ]
}

/// Whether `key` names a configuration item.
pub open spec fn is_config_key(key: Seq<char>) -> bool {
    config_keys().contains(key)
}

/// The defaults that a new configuration holds.
pub open spec fn default_config() -> Map<Seq<char>, i64> {
    map![
        "BackPressure"@ => 20i64,
        "UnknownPosition"@ => 0i64,
        "ProcessSpawnTimeout"@ => 10i64,
        "BreakpointTimeout"@ => 2i64,
        "PrintVariableTimeout"@ => 2i64,
    ]
}

impl View for Config {
    type V = Map<Seq<char>, i64>;

    closed spec fn view(&self) -> Map<Seq<char>, i64> {
        map![
            "BackPressure"@ => self.back_pressure,
            "UnknownPosition"@ => self.unknown_position,
            "ProcessSpawnTimeout"@ => self.process_spawn_timeout,
            "BreakpointTimeout"@ => self.breakpoint_timeout,
            "PrintVariableTimeout"@ => self.print_variable_timeout,
        ]
    }
}

/// The position of `key` among the configuration items, if it is one.
fn key_index(key: &str) -> (r: Option<usize>)
    ensures
        r matches Some(i) ==> i < 5 && config_keys()[i as int] == key@,
        r is None ==> !is_config_key(key@),
{
    proof {
        reveal_strlit("BackPressure");
        reveal_strlit("UnknownPosition");
        reveal_strlit("ProcessSpawnTimeout");
        reveal_strlit("BreakpointTimeout");
        reveal_strlit("PrintVariableTimeout");
    }
    if str_eq(key, "BackPressure") {
        Some(0)
    } else if str_eq(key, "UnknownPosition") {
        Some(1)
    } else if str_eq(key, "ProcessSpawnTimeout") {
        Some(2)
    } else if str_eq(key, "BreakpointTimeout") {
        Some(3)
    } else if str_eq(key, "PrintVariableTimeout") {
        Some(4)
    } else {
        proof {
            assert forall|j: int| 0 <= j < config_keys().len() implies config_keys()[j] != key@ by {
                if j == 0 { assert(config_keys()[j] == "BackPressure"@); }
                else if j == 1 { assert(config_keys()[j] == "UnknownPosition"@); }
                else if j == 2 { assert(config_keys()[j] == "ProcessSpawnTimeout"@); }
                else if j == 3 { assert(config_keys()[j] == "BreakpointTimeout"@); }
                else { assert(config_keys()[j] == "PrintVariableTimeout"@); }
            }
        }
        None
    }
}

/// The configuration keys are pairwise distinct.
proof fn lemma_config_keys_distinct()
    ensures
        forall|i: int, j: int|
            0 <= i < 5 && 0 <= j < 5 && i != j ==> config_keys()[i] != config_keys()[j],
{
    reveal_strlit("BackPressure");
    reveal_strlit("UnknownPosition");
    reveal_strlit("ProcessSpawnTimeout");
    reveal_strlit("BreakpointTimeout");
    reveal_strlit("PrintVariableTimeout");
    assert("BackPressure"@[0] != "UnknownPosition"@[0]);
    assert("BackPressure"@[0] != "ProcessSpawnTimeout"@[0]);
    assert("BackPressure"@[0] != "BreakpointTimeout"@[1]);
    assert("BackPressure"@.len() != "BreakpointTimeout"@.len());
    assert("BackPressure"@.len() != "PrintVariableTimeout"@.len());
    assert("UnknownPosition"@[0] != "ProcessSpawnTimeout"@[0]);
    assert("UnknownPosition"@[0] != "BreakpointTimeout"@[0]);
    assert("UnknownPosition"@[0] != "PrintVariableTimeout"@[0]);
    assert("ProcessSpawnTimeout"@[0] != "BreakpointTimeout"@[0]);
    assert("ProcessSpawnTimeout"@[2] != "PrintVariableTimeout"@[2]);
    assert("BreakpointTimeout"@[0] != "PrintVariableTimeout"@[0]);
}

impl Config {
    /// A configuration that holds the default of every item.
    pub fn new() -> (r: Config)
        ensures
            r@ == default_config(),
    {
        Config {
            back_pressure: 20,
            unknown_position: 0,
            process_spawn_timeout: 10,
            breakpoint_timeout: 2,
            print_variable_timeout: 2,
        }
    }

    /// The value of the item `key`, or `None` where no item has that name.
    pub fn get_config(&self, key: &str) -> (r: Option<i64>)
        ensures
            r == (if self@.contains_key(key@) { Some(self@[key@]) } else { None::<i64> }),
    {
        proof {
            lemma_config_keys_distinct();
        }
        match key_index(key) {
            Some(0) => Some(self.back_pressure),
            Some(1) => Some(self.unknown_position),
            Some(2) => Some(self.process_spawn_timeout),
            Some(3) => Some(self.breakpoint_timeout),
            Some(_) => Some(self.print_variable_timeout),
            None => {
                assert(!self@.dom().contains(key@)) by {
                    assert(!config_keys().contains(key@));
                    assert(config_keys()[0] == "BackPressure"@);
                    assert(config_keys()[1] == "UnknownPosition"@);
                    assert(config_keys()[2] == "ProcessSpawnTimeout"@);
                    assert(config_keys()[3] == "BreakpointTimeout"@);
                    assert(config_keys()[4] == "PrintVariableTimeout"@);
                }
                None
            },
        }
    }

    /// Set the item `key` to `value`; returns whether `key` names an item.
    /// Where it does not, the configuration is left as it was.
    pub fn set_config(&mut self, key: &str, value: i64) -> (r: bool)
        ensures
            r == old(self)@.contains_key(key@),
            r ==> final(self)@ == old(self)@.insert(key@, value),
            !r ==> final(self)@ == old(self)@,
    {
        proof {
            lemma_config_keys_distinct();
        }
        match key_index(key) {
            Some(0) => {
                self.back_pressure = value;
                assert(self@ =~= old(self)@.insert(key@, value));
                true
            },
            Some(1) => {
                self.unknown_position = value;
                assert(self@ =~= old(self)@.insert(key@, value));
                true
            },
            Some(2) => {
                self.process_spawn_timeout = value;
                assert(self@ =~= old(self)@.insert(key@, value));
                true
            },
            Some(3) => {
                self.breakpoint_timeout = value;
                assert(self@ =~= old(self)@.insert(key@, value));
                true
            },
            Some(_) => {
                self.print_variable_timeout = value;
                assert(self@ =~= old(self)@.insert(key@, value));
                true
            },
            None => {
                assert(!old(self)@.dom().contains(key@)) by {
                    assert(config_keys()[0] == "BackPressure"@);
                    assert(config_keys()[1] == "UnknownPosition"@);
                    assert(config_keys()[2] == "ProcessSpawnTimeout"@);
                    assert(config_keys()[3] == "BreakpointTimeout"@);
                    assert(config_keys()[4] == "PrintVariableTimeout"@);
                }
                false
            },
        }
    }
}

/// Every configuration holds exactly the five items, whatever was set;
/// reading an item after setting it gives the value set, and the other
/// items keep theirs.
pub proof fn lemma_set_then_get(c: Config, key: Seq<char>, value: i64, other: Seq<char>)
    ensures
        c@.dom() == config_keys().to_set(),
        c@.contains_key(key) ==> c@.insert(key, value).dom() == c@.dom(),
        c@.contains_key(key) ==> c@.insert(key, value)[key] == value,
        other != key ==> c@.insert(key, value).contains_key(other) == c@.contains_key(other),
        other != key && c@.contains_key(other) ==> c@.insert(key, value)[other] == c@[other],
{
    assert(c@.dom() =~= config_keys().to_set()) by {
        assert forall|k: Seq<char>| c@.dom().contains(k) <==> config_keys().to_set().contains(k) by {
            if c@.dom().contains(k) {
                if k == "BackPressure"@ { assert(config_keys()[0] == k); }
                else if k == "UnknownPosition"@ { assert(config_keys()[1] == k); }
                else if k == "ProcessSpawnTimeout"@ { assert(config_keys()[2] == k); }
                else if k == "BreakpointTimeout"@ { assert(config_keys()[3] == k); }
                else { assert(config_keys()[4] == k); }
            }
        }
    }
    if c@.contains_key(key) {
        assert(c@.insert(key, value).dom() =~= c@.dom());
    }
}

} // verus!
