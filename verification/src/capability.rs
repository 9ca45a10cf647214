//! The resolved capabilities of a sandbox.

use vstd::prelude::*;

use crate::text;

verus! {

/// The access that a capability grants, or that a query asks for.
#[derive(Debug, Clone, Copy, PartialEq, Eq, Structural)]
pub enum AccessMode {
    Read,
    Write,
    ReadWrite,
}

pub open spec fn access_text(access: AccessMode) -> Seq<char> {
    match access {
        AccessMode::Read => "read"@,
        AccessMode::Write => "write"@,
        AccessMode::ReadWrite => "read+write"@,
    }
}

/// Whether a grant of `granted` access is enough for `requested` access.
pub open spec fn is_sufficient(granted: AccessMode, requested: AccessMode) -> bool {
    granted == AccessMode::ReadWrite || granted == requested
}

impl AccessMode {
    /// The name of the mode.
    pub fn label(&self) -> (out: String)
        ensures
            out@ == access_text(*self),
    {
        match self {
            AccessMode::Read => "read".to_owned(),
            AccessMode::Write => "write".to_owned(),
            AccessMode::ReadWrite => "read+write".to_owned(),
        }
    }

    /// Whether a grant of this mode satisfies a request.
    pub fn satisfies(&self, requested: AccessMode) -> (yes: bool)
        ensures
            yes == is_sufficient(*self, requested),
    {
        match (*self, requested) {
            (AccessMode::ReadWrite, _) => true,
            (AccessMode::Read, AccessMode::Read) => true,
            (AccessMode::Write, AccessMode::Write) => true,
            _ => false,
        }
    }
}

/// Where a capability comes from.
#[derive(Debug, Clone, PartialEq, Eq)]
pub enum CapabilitySource {
    User,
    Profile,
    Group(String),
    System,
}

pub open spec fn source_text(source: CapabilitySource) -> Seq<char> {
    match source {
        CapabilitySource::User => "user"@,
        CapabilitySource::Profile => "profile"@,
        CapabilitySource::Group(name) => "group:"@ + name@,
        CapabilitySource::System => "system"@,
    }
}

impl CapabilitySource {
    /// The name of the source.
    pub fn label(&self) -> (out: String)
        ensures
            out@ == source_text(*self),
    {
        match self {
            CapabilitySource::User => "user".to_owned(),
            CapabilitySource::Profile => "profile".to_owned(),
            CapabilitySource::Group(name) => {
                let mut out = "group:".to_owned();
                out.append(name.as_str());
                out
            },
            CapabilitySource::System => "system".to_owned(),
        }
    }
}

/// A grant on one file, or on a directory and all that is below it.
#[derive(Debug, Clone, PartialEq, Eq)]
pub struct FsCapability {
    /// The canonical path of the grant.
    pub resolved: Vec<u8>,
    pub access: AccessMode,
    pub is_file: bool,
    pub source: CapabilitySource,
}

/// Everything that was granted to, or withheld from, a sandbox.
#[derive(Debug, Clone, PartialEq, Eq)]
pub struct CapabilitySet {
    pub fs: Vec<FsCapability>,
    /// Whether unfiltered network access is withheld.
    pub network_blocked: bool,
    /// Ports pinned to localhost, for binding and for connecting.
    pub localhost: Vec<u16>,
    /// Ports that may be connected to.
    pub connect: Vec<u16>,
    /// Ports that may be bound.
    pub bind: Vec<u16>,
    /// Commands that are allowed whatever the blocklist says.
    pub allowed: Vec<String>,
    /// Commands that are blocked.
    pub blocked: Vec<String>,
}

impl CapabilitySet {
    /// No grant at all, and an open network.
    pub fn new() -> (caps: CapabilitySet)
        ensures
            caps.fs@ == Seq::<FsCapability>::empty(),
            !caps.network_blocked,
            caps.localhost@ == Seq::<u16>::empty(),
            caps.connect@ == Seq::<u16>::empty(),
            caps.bind@ == Seq::<u16>::empty(),
            caps.allowed@ == Seq::<String>::empty(),
            caps.blocked@ == Seq::<String>::empty(),
    {
        CapabilitySet {
            fs: Vec::new(),
            network_blocked: false,
            localhost: Vec::new(),
            connect: Vec::new(),
            bind: Vec::new(),
            allowed: Vec::new(),
            blocked: Vec::new(),
        }
    }

    /// The same set with network access withheld.
    pub fn block_network(self) -> (caps: CapabilitySet)
        ensures
            caps == (CapabilitySet { network_blocked: true, ..self }),
    {
        let mut caps = self;
        caps.network_blocked = true;
        caps
    }

    /// The same set with one more port pinned to localhost.
    pub fn allow_localhost_port(self, port: u16) -> (caps: CapabilitySet)
        ensures
            caps.localhost@ == self.localhost@.push(port),
            caps == (CapabilitySet { localhost: caps.localhost, ..self }),
    {
        let mut caps = self;
        caps.localhost.push(port);
        caps
    }

    /// The same set with one more blocked command.
    pub fn block_command(self, name: &str) -> (caps: CapabilitySet)
        ensures
            text::texts(caps.blocked@) == text::texts(self.blocked@).push(name@),
            caps == (CapabilitySet { blocked: caps.blocked, ..self }),
    {
        let mut caps = self;
        caps.blocked.push(name.to_owned());
        assert(text::texts(caps.blocked@) =~= text::texts(self.blocked@).push(name@));
        caps
    }

    /// The same set with one more allowed command.
    pub fn allow_command(self, name: &str) -> (caps: CapabilitySet)
        ensures
            text::texts(caps.allowed@) == text::texts(self.allowed@).push(name@),
            caps == (CapabilitySet { allowed: caps.allowed, ..self }),
    {
        let mut caps = self;
        caps.allowed.push(name.to_owned());
        assert(text::texts(caps.allowed@) =~= text::texts(self.allowed@).push(name@));
        caps
    }

    /// Adds a grant on the file system.
    pub fn add_fs(&mut self, cap: FsCapability)
        ensures
            final(self).fs@ == old(self).fs@.push(cap),
            *final(self) == (CapabilitySet { fs: final(self).fs, ..*old(self) }),
    {
        self.fs.push(cap);
    }

    /// Adds a port that may be connected to.
    pub fn add_tcp_connect_port(&mut self, port: u16)
        ensures
            final(self).connect@ == old(self).connect@.push(port),
            *final(self) == (CapabilitySet { connect: final(self).connect, ..*old(self) }),
    {
        self.connect.push(port);
    }

    /// Adds a port that may be bound.
    pub fn add_tcp_bind_port(&mut self, port: u16)
        ensures
            final(self).bind@ == old(self).bind@.push(port),
            *final(self) == (CapabilitySet { bind: final(self).bind, ..*old(self) }),
    {
        self.bind.push(port);
    }
}

/// Whether a port is listed.
pub fn lists_port(ports: &Vec<u16>, port: u16) -> (found: bool)
    ensures
        found == ports@.contains(port),
{
    let mut i: usize = 0;
    while i < ports.len()
        invariant
            i <= ports.len(),
            forall|j: int| 0 <= j < i ==> ports@[j] != port,
        decreases ports.len() - i,
    {
        if ports[i] == port {
            assert(ports@[i as int] == port);
            return true;
        }
        i += 1;
    }
    false
}

/// A grant is enough exactly when it gives every right that is asked for: the right to read, if
/// reading is asked for, and the right to write, if writing is.
pub proof fn law_grant_needs_every_right(granted: AccessMode, requested: AccessMode)
    ensures
        ({
            let wants_read = requested == AccessMode::Read || requested == AccessMode::ReadWrite;
            let wants_write = requested == AccessMode::Write || requested == AccessMode::ReadWrite;
            let gives_read = granted == AccessMode::Read || granted == AccessMode::ReadWrite;
            let gives_write = granted == AccessMode::Write || granted == AccessMode::ReadWrite;
            is_sufficient(granted, requested) <==> (wants_read ==> gives_read) && (wants_write
                ==> gives_write)
        }),
{
}

/// Full access is enough exactly where both kinds of access are, and asking for both is granted
/// exactly where each of them is.
pub proof fn law_full_access_is_both(mode: AccessMode)
    ensures
        is_sufficient(AccessMode::ReadWrite, mode),
        is_sufficient(mode, AccessMode::ReadWrite) <==> is_sufficient(mode, AccessMode::Read)
            && is_sufficient(mode, AccessMode::Write),
        is_sufficient(mode, mode),
        !is_sufficient(AccessMode::Read, AccessMode::Write),
        !is_sufficient(AccessMode::Write, AccessMode::Read),
{
}

/// Every mode has a name of its own; the name of full access is made of the other two.
pub proof fn law_modes_are_named(mode: AccessMode)
    ensures
        access_text(mode) == "read"@ <==> mode == AccessMode::Read,
        access_text(mode) == "write"@ <==> mode == AccessMode::Write,
        access_text(AccessMode::ReadWrite) == access_text(AccessMode::Read) + "+"@ + access_text(
            AccessMode::Write,
        ),
{
    reveal_strlit("read");
    reveal_strlit("write");
    reveal_strlit("+");
    reveal_strlit("read+write");
    assert("read+write"@ =~= "read"@ + "+"@ + "write"@);
    assert("read"@.len() == 4 && "write"@.len() == 5 && "read+write"@.len() == 10);
}

/// Every source has a name of its own; a group is named behind a prefix that no other source has.
pub proof fn law_sources_are_named(source: CapabilitySource)
    ensures
        source is User ==> source_text(source) == "user"@,
        source is Profile ==> source_text(source) == "profile"@,
        source is System ==> source_text(source) == "system"@,
        source matches CapabilitySource::Group(name) ==> source_text(source).len() == 6
            + name@.len() && source_text(source).take(6) == "group:"@ && source_text(source).skip(6)
            == name@,
{
    reveal_strlit("group:");
    if let CapabilitySource::Group(name) = source {
        assert(source_text(source).take(6) =~= "group:"@);
        assert(source_text(source).skip(6) =~= name@);
    }
}

} // verus!
