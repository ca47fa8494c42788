//! The field dictionary: which role an identifier of the telegram plays.

use vstd::prelude::*;
use crate::text::same_text;

verus! {

/// The part that a field of the telegram plays in a usage snapshot.
#[derive(Clone, Copy, Debug, PartialEq, Eq, Structural)]
pub enum Role {
    ElectricityTimestamp,
    PowerIn,
    PowerOut,
    EnergyLowIn,
    EnergyNormalIn,
    EnergyLowOut,
    EnergyNormalOut,
    Voltage,
    Current,
    GasReading,
    Unrecognized,
}

/// The role of an identifier. Every identifier that the dictionary does not
/// list is `Unrecognized`.
pub open spec fn role_of(identifier: Seq<char>) -> Role {
    if identifier == "0-0:1.0.0"@ {
        Role::ElectricityTimestamp
    } else if identifier == "1-0:1.7.0"@ {
        Role::PowerIn
    } else if identifier == "1-0:2.7.0"@ {
        Role::PowerOut
    } else if identifier == "1-0:1.8.1"@ {
        Role::EnergyLowIn
    } else if identifier == "1-0:1.8.2"@ {
        Role::EnergyNormalIn
    } else if identifier == "1-0:2.8.1"@ {
        Role::EnergyLowOut
    } else if identifier == "1-0:2.8.2"@ {
        Role::EnergyNormalOut
    } else if identifier == "1-0:32.7.0"@ {
        Role::Voltage
    } else if identifier == "1-0:31.7.0"@ {
        Role::Current
    } else if identifier == "0-1:24.2.1"@ {
        Role::GasReading
    } else {
        Role::Unrecognized
    }
}

/// Looks an identifier up in the dictionary.
pub fn lookup(identifier: &str) -> (role: Role)
    ensures
        role == role_of(identifier@),
{
    if same_text(identifier, "0-0:1.0.0") {
        Role::ElectricityTimestamp
    } else if same_text(identifier, "1-0:1.7.0") {
        Role::PowerIn
    } else if same_text(identifier, "1-0:2.7.0") {
        Role::PowerOut
    } else if same_text(identifier, "1-0:1.8.1") {
        Role::EnergyLowIn
    } else if same_text(identifier, "1-0:1.8.2") {
        Role::EnergyNormalIn
    } else if same_text(identifier, "1-0:2.8.1") {
        Role::EnergyLowOut
    } else if same_text(identifier, "1-0:2.8.2") {
        Role::EnergyNormalOut
    } else if same_text(identifier, "1-0:32.7.0") {
        Role::Voltage
    } else if same_text(identifier, "1-0:31.7.0") {
        Role::Current
    } else if same_text(identifier, "0-1:24.2.1") {
        Role::GasReading
    } else {
        Role::Unrecognized
    }
}

/// The identifier that the dictionary lists for a role. `Unrecognized` has
/// none.
pub open spec fn identifier_text(role: Role) -> Option<Seq<char>> {
    match role {
        Role::ElectricityTimestamp => Some("0-0:1.0.0"@),
        Role::PowerIn => Some("1-0:1.7.0"@),
        Role::PowerOut => Some("1-0:2.7.0"@),
        Role::EnergyLowIn => Some("1-0:1.8.1"@),
        Role::EnergyNormalIn => Some("1-0:1.8.2"@),
        Role::EnergyLowOut => Some("1-0:2.8.1"@),
        Role::EnergyNormalOut => Some("1-0:2.8.2"@),
        Role::Voltage => Some("1-0:32.7.0"@),
        Role::Current => Some("1-0:31.7.0"@),
        Role::GasReading => Some("0-1:24.2.1"@),
        Role::Unrecognized => None,
    }
}

impl Role {
    /// The identifier under which the telegram carries this role.
    pub fn identifier(&self) -> (r: Option<&'static str>)
        ensures
            (r is Some) == (identifier_text(*self) is Some),
            r matches Some(text) ==> Some(text@) == identifier_text(*self),
    {
        match self {
            Role::ElectricityTimestamp => Some("0-0:1.0.0"),
            Role::PowerIn => Some("1-0:1.7.0"),
            Role::PowerOut => Some("1-0:2.7.0"),
            Role::EnergyLowIn => Some("1-0:1.8.1"),
            Role::EnergyNormalIn => Some("1-0:1.8.2"),
            Role::EnergyLowOut => Some("1-0:2.8.1"),
            Role::EnergyNormalOut => Some("1-0:2.8.2"),
            Role::Voltage => Some("1-0:32.7.0"),
            Role::Current => Some("1-0:31.7.0"),
            Role::GasReading => Some("0-1:24.2.1"),
            Role::Unrecognized => None,
        }
    }
}

/// The places in which the identifiers of the dictionary differ.
spec fn marks(identifier: Seq<char>) -> (nat, char, char, char, char) {
    (identifier.len(), identifier[0], identifier[4], identifier[5], identifier[6])
}

/// The dictionary lists each role under one identifier of its own: the
/// identifier of a role is looked up as that role, and nothing else is.
pub proof fn lemma_dictionary_consistent(role: Role, identifier: Seq<char>)
    requires
        role != Role::Unrecognized,
    ensures
        role_of(identifier) == role <==> Some(identifier) == identifier_text(role),
{
    reveal_strlit("0-0:1.0.0");
    reveal_strlit("1-0:1.7.0");
    reveal_strlit("1-0:2.7.0");
    reveal_strlit("1-0:1.8.1");
    reveal_strlit("1-0:1.8.2");
    reveal_strlit("1-0:2.8.1");
    reveal_strlit("1-0:2.8.2");
    reveal_strlit("1-0:32.7.0");
    reveal_strlit("1-0:31.7.0");
    reveal_strlit("0-1:24.2.1");
    assert(marks("0-0:1.0.0"@) == (9nat, '0', '1', '.', '0'));
    assert(marks("1-0:1.7.0"@) == (9nat, '1', '1', '.', '7'));
    assert(marks("1-0:2.7.0"@) == (9nat, '1', '2', '.', '7'));
    assert(marks("1-0:1.8.1"@) == (9nat, '1', '1', '.', '8') && "1-0:1.8.1"@[8] == '1');
    assert(marks("1-0:1.8.2"@) == (9nat, '1', '1', '.', '8') && "1-0:1.8.2"@[8] == '2');
    assert(marks("1-0:2.8.1"@) == (9nat, '1', '2', '.', '8') && "1-0:2.8.1"@[8] == '1');
    assert(marks("1-0:2.8.2"@) == (9nat, '1', '2', '.', '8') && "1-0:2.8.2"@[8] == '2');
    assert(marks("1-0:32.7.0"@) == (10nat, '1', '3', '2', '.'));
    assert(marks("1-0:31.7.0"@) == (10nat, '1', '3', '1', '.'));
    assert(marks("0-1:24.2.1"@) == (10nat, '0', '2', '4', '.'));
}

} // verus!
