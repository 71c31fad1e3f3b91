//! Permission flags for address-space mappings.
//!
//! A `FlagBuilder` is an immutable value of six independent capability
//! bits. `read`, `write` and `execute` are requestable access modes;
//! `cow`, `private` and `shared` are mapping-management attributes. Two
//! pairs are mutually exclusive for a flags value to be valid: `private`
//! with `shared`, and `cow` with `write` (copy-on-write must intercept a
//! write before it is permitted).

use vstd::prelude::*;

verus! {

/// Build flags for address space maps.
///
/// Construct a value with a single capability (`FlagBuilder::read()`),
/// or start from `FlagBuilder::new()` and toggle bits one at a time:
/// `FlagBuilder::new().toggle_read().toggle_write()`.
#[derive(Clone, Copy, Debug, PartialEq, Eq, Structural)]
pub struct FlagBuilder {
    pub read: bool,
    pub write: bool,
    pub execute: bool,
    pub cow: bool,
    pub private: bool,
    pub shared: bool,
}

impl FlagBuilder {
    /// A flags value is valid iff `private`/`shared` and `cow`/`write`
    /// are not simultaneously set.
    pub open spec fn valid(self) -> bool {
        &&& !(self.private && self.shared)
        &&& !(self.cow && self.write)
    }

    /// Every capability bit set in `requested` is also set in `self`,
    /// for the three requestable access modes (read, write, execute).
    pub open spec fn grants(self, requested: FlagBuilder) -> bool {
        &&& requested.read ==> self.read
        &&& requested.write ==> self.write
        &&& requested.execute ==> self.execute
    }

    /// Create a new `FlagBuilder` with all flags toggled off.
    #[must_use]
    pub fn new() -> (r: Self)
        ensures
            r == (FlagBuilder {
                read: false,
                write: false,
                execute: false,
                cow: false,
                private: false,
                shared: false,
            }),
    {
        FlagBuilder {
            read: false,
            write: false,
            execute: false,
            cow: false,
            private: false,
            shared: false,
        }
    }

    /// Turn on only the read flag.
    #[must_use]
    pub fn read() -> (r: Self)
        ensures
            r == (FlagBuilder { read: true, ..FlagBuilder::new_spec() }),
    {
        FlagBuilder { read: true, ..Self::new() }
    }

    /// Turn on only the write flag.
    #[must_use]
    pub fn write() -> (r: Self)
        ensures
            r == (FlagBuilder { write: true, ..FlagBuilder::new_spec() }),
    {
        FlagBuilder { write: true, ..Self::new() }
    }

    /// Turn on only the execute flag.
    #[must_use]
    pub fn execute() -> (r: Self)
        ensures
            r == (FlagBuilder { execute: true, ..FlagBuilder::new_spec() }),
    {
        FlagBuilder { execute: true, ..Self::new() }
    }

    /// Turn on only the cow flag.
    #[must_use]
    pub fn cow() -> (r: Self)
        ensures
            r == (FlagBuilder { cow: true, ..FlagBuilder::new_spec() }),
    {
        FlagBuilder { cow: true, ..Self::new() }
    }

    /// Turn on only the private flag.
    #[must_use]
    pub fn private() -> (r: Self)
        ensures
            r == (FlagBuilder { private: true, ..FlagBuilder::new_spec() }),
    {
        FlagBuilder { private: true, ..Self::new() }
    }

    /// Turn on only the shared flag.
    #[must_use]
    pub fn shared() -> (r: Self)
        ensures
            r == (FlagBuilder { shared: true, ..FlagBuilder::new_spec() }),
    {
        FlagBuilder { shared: true, ..Self::new() }
    }

    /// The all-off flags value, for use in contracts.
    pub open spec fn new_spec() -> Self {
        FlagBuilder {
            read: false,
            write: false,
            execute: false,
            cow: false,
            private: false,
            shared: false,
        }
    }

    /// Toggle the read flag.
    #[must_use]
    pub fn toggle_read(self) -> (r: Self)
        ensures
            r == (FlagBuilder { read: !self.read, ..self }),
    {
        FlagBuilder { read: !self.read, ..self }
    }

    /// Toggle the write flag.
    #[must_use]
    pub fn toggle_write(self) -> (r: Self)
        ensures
            r == (FlagBuilder { write: !self.write, ..self }),
    {
        FlagBuilder { write: !self.write, ..self }
    }

    /// Toggle the execute flag.
    #[must_use]
    pub fn toggle_execute(self) -> (r: Self)
        ensures
            r == (FlagBuilder { execute: !self.execute, ..self }),
    {
        FlagBuilder { execute: !self.execute, ..self }
    }

    /// Toggle the cow flag.
    #[must_use]
    pub fn toggle_cow(self) -> (r: Self)
        ensures
            r == (FlagBuilder { cow: !self.cow, ..self }),
    {
        FlagBuilder { cow: !self.cow, ..self }
    }

    /// Toggle the private flag.
    #[must_use]
    pub fn toggle_private(self) -> (r: Self)
        ensures
            r == (FlagBuilder { private: !self.private, ..self }),
    {
        FlagBuilder { private: !self.private, ..self }
    }

    /// Toggle the shared flag.
    #[must_use]
    pub fn toggle_shared(self) -> (r: Self)
        ensures
            r == (FlagBuilder { shared: !self.shared, ..self }),
    {
        FlagBuilder { shared: !self.shared, ..self }
    }

    /// Combine two `FlagBuilder`s by boolean or-ing each of their flags.
    ///
    /// This is, somewhat counter-intuitively, named `and`, so that
    /// `read.and(execute)` reads as "read and execute".
    #[must_use]
    pub fn and(self, other: Self) -> (r: Self)
        ensures
            r == (FlagBuilder {
                read: self.read || other.read,
                write: self.write || other.write,
                execute: self.execute || other.execute,
                cow: self.cow || other.cow,
                private: self.private || other.private,
                shared: self.shared || other.shared,
            }),
    {
        FlagBuilder {
            read: self.read || other.read,
            write: self.write || other.write,
            execute: self.execute || other.execute,
            cow: self.cow || other.cow,
            private: self.private || other.private,
            shared: self.shared || other.shared,
        }
    }

    /// Turn off all flags in self that are on in other.
    ///
    /// You can think of this as `self &! other` on each field.
    #[must_use]
    pub fn but_not(self, other: Self) -> (r: Self)
        ensures
            r == (FlagBuilder {
                read: self.read && !other.read,
                write: self.write && !other.write,
                execute: self.execute && !other.execute,
                cow: self.cow && !other.cow,
                private: self.private && !other.private,
                shared: self.shared && !other.shared,
            }),
    {
        FlagBuilder {
            read: self.read && !other.read,
            write: self.write && !other.write,
            execute: self.execute && !other.execute,
            cow: self.cow && !other.cow,
            private: self.private && !other.private,
            shared: self.shared && !other.shared,
        }
    }

    /// True iff the two mutual-exclusion invariants hold: `private` and
    /// `shared` are not both set, and `cow` and `write` are not both set.
    ///
    /// Validity is advisory: the address space does not reject invalid
    /// flags when a mapping is created.
    pub fn is_valid(&self) -> (r: bool)
        ensures
            r == self.valid(),
    {
        if self.private && self.shared {
            return false;
        }
        if self.cow && self.write {
            return false;
        }
        true
    }

    /// Returns true iff every capability bit set in `access_perms` is
    /// also set in `self`. Only read/write/execute are meaningful here:
    /// cow/private/shared are mapping-management attributes, not
    /// requestable access modes.
    pub fn check_access_perms(&self, access_perms: FlagBuilder) -> (r: bool)
        ensures
            r == self.grants(access_perms),
    {
        if access_perms.read && !self.read || access_perms.write && !self.write
            || access_perms.execute && !self.execute {
            return false;
        }
        true
    }
}

impl Default for FlagBuilder {
    /// The all-off flags value.
    fn default() -> (r: Self)
        ensures
            r == FlagBuilder::new_spec(),
    {
        FlagBuilder::new()
    }
}

} // verus!
