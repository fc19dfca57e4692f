use vstd::prelude::*;

use crate::dict::Dict;
use crate::dict::entries_match;
use crate::dict::entry_views;

verus! {

/// The one kind of readiness condition this image family uses: wait for a
/// literal message to appear on the container's standard output stream.
#[derive(Debug, PartialEq, Eq)]
pub enum WaitFor {
    MessageOnStdout { message: String },
}

impl WaitFor {
    /// The characters of the awaited message.
    pub open spec fn message(&self) -> Seq<char> {
        match self {
            WaitFor::MessageOnStdout { message } => message@,
        }
    }

    /// A condition that waits for `message` on standard output.
    pub fn message_on_stdout(message: String) -> (c: WaitFor)
        ensures
            c.message() == message@,
    {
        WaitFor::MessageOnStdout { message }
    }
}

/// The mathematical content of a descriptor or of a builder: the four
/// configurable fields, the two string-to-string mappings as maps.
pub ghost struct ImageModel {
    pub env: Map<Seq<char>, Seq<char>>,
    pub volumes: Map<Seq<char>, Seq<char>>,
    pub tag: Seq<char>,
    pub ports: Seq<u16>,
}

/// The fixed repository identifier of this image family.
pub open spec fn image_name() -> Seq<char> {
    "localstack/localstack-pro"@
}

/// The tag the defaults preset selects.
pub open spec fn default_tag() -> Seq<char> {
    "latest"@
}

/// The message whose appearance on standard output means the container is ready.
pub open spec fn ready_message() -> Seq<char> {
    "Ready."@
}

/// The environment the defaults preset sets up: debug logging, the Docker
/// socket handed through, and the caller's key stored verbatim.
pub open spec fn default_env(api_key: Seq<char>) -> Map<Seq<char>, Seq<char>> {
    Map::<Seq<char>, Seq<char>>::empty().insert("DEBUG"@, "1"@).insert(
        "DOCKER_HOST"@,
        "unix:///var/run/docker.sock"@,
    ).insert("LOCALSTACK_API_KEY"@, api_key)
}

/// The bind mounts the defaults preset sets up: the Docker socket alone.
pub open spec fn default_volumes() -> Map<Seq<char>, Seq<char>> {
    Map::<Seq<char>, Seq<char>>::empty().insert("/var/run/docker.sock"@, "/var/run/docker.sock"@)
}

/// The ports the defaults preset publishes: the edge port, DNS and HTTPS,
/// then the fifty service ports from 4510 up to but not including 4560.
pub open spec fn default_ports() -> Seq<u16> {
    Seq::new(
        53,
        |i: int|
            if i == 0 {
                4566u16
            } else if i == 1 {
                53u16
            } else if i == 2 {
                443u16
            } else {
                (4510 + (i - 3)) as u16
            },
    )
}

/// An immutable description of one container image instantiation. Built by
/// [`LocalStackProBuilder`]; read by a container-lifecycle harness through
/// the accessors, which never change the descriptor.
#[derive(Debug)]
pub struct LocalStackPro {
    env_vars: Dict,
    volumes: Dict,
    tag: String,
    ports: Vec<u16>,
}

impl View for LocalStackPro {
    type V = ImageModel;

    closed spec fn view(&self) -> ImageModel {
        ImageModel {
            env: self.env_vars@,
            volumes: self.volumes@,
            tag: self.tag@,
            ports: self.ports@,
        }
    }
}

impl LocalStackPro {
    /// Both internal mappings keep their keys pairwise distinct.
    pub closed spec fn wf(&self) -> bool {
        self.env_vars.wf() && self.volumes.wf()
    }

    /// The fixed repository identifier of this image family.
    pub fn name(&self) -> (r: String)
        ensures
            r@ == image_name(),
    {
        "localstack/localstack-pro".to_owned()
    }

    /// The configured tag; empty when no tag was ever set.
    pub fn tag(&self) -> (r: String)
        ensures
            r@ == self@.tag,
    {
        self.tag.clone()
    }

    /// The conditions the harness must see satisfied, all of them, before it
    /// treats the container as usable: here always the single condition that
    /// the ready message appears on standard output.
    pub fn ready_conditions(&self) -> (r: Vec<WaitFor>)
        ensures
            r@.len() == 1,
            r@[0].message() == ready_message(),
    {
        let mut r: Vec<WaitFor> = Vec::new();
        r.push(WaitFor::message_on_stdout("Ready.".to_owned()));
        r
    }

    /// The environment, listed pair by pair; exactly the bindings of the
    /// descriptor's environment map, in no promised order.
    pub fn env_vars(&self) -> (r: Vec<(String, String)>)
        requires
            self.wf(),
        ensures
            entries_match(self@.env, entry_views(r@)),
    {
        self.env_vars.pairs()
    }

    /// The bind mounts, listed as (host path, container path) pairs; exactly
    /// the bindings of the descriptor's volume map, in no promised order.
    pub fn volumes(&self) -> (r: Vec<(String, String)>)
        requires
            self.wf(),
        ensures
            entries_match(self@.volumes, entry_views(r@)),
    {
        self.volumes.pairs()
    }

    /// A copy of the configured port list, order and duplicates kept; the
    /// caller may change the copy without affecting the descriptor.
    pub fn expose_ports(&self) -> (r: Vec<u16>)
        ensures
            r@ == self@.ports,
    {
        let r = self.ports.clone();
        proof {
            assert(r@ =~= self.ports@);
        }
        r
    }
}

/// A mutable accumulator for the same fields. Setters replace whole fields;
/// `build` snapshots the current state into an immutable descriptor and the
/// builder stays usable.
#[derive(Debug)]
pub struct LocalStackProBuilder {
    env_vars: Dict,
    tag: String,
    volumes: Dict,
    ports: Vec<u16>,
}

impl View for LocalStackProBuilder {
    type V = ImageModel;

    closed spec fn view(&self) -> ImageModel {
        ImageModel {
            env: self.env_vars@,
            volumes: self.volumes@,
            tag: self.tag@,
            ports: self.ports@,
        }
    }
}

impl LocalStackProBuilder {
    /// Both internal mappings keep their keys pairwise distinct.
    pub closed spec fn wf(&self) -> bool {
        self.env_vars.wf() && self.volumes.wf()
    }

    /// A builder with empty environment, empty volumes, empty port list and
    /// empty tag.
    pub fn new() -> (b: LocalStackProBuilder)
        ensures
            b.wf(),
            b@.env == Map::<Seq<char>, Seq<char>>::empty(),
            b@.volumes == Map::<Seq<char>, Seq<char>>::empty(),
            b@.tag == Seq::<char>::empty(),
            b@.ports == Seq::<u16>::empty(),
    {
        LocalStackProBuilder {
            env_vars: Dict::new(),
            tag: String::new(),
            volumes: Dict::new(),
            ports: Vec::new(),
        }
    }

    /// The canonical configuration of this image family, ready to build:
    /// the default environment with the caller's key stored verbatim, the
    /// Docker socket bind mount, the default tag, and the default ports.
    pub fn defaults(api_key: String) -> (b: LocalStackProBuilder)
        ensures
            b.wf(),
            b@.env == default_env(api_key@),
            b@.volumes == default_volumes(),
            b@.tag == default_tag(),
            b@.ports == default_ports(),
    {
        let mut env_vars = Dict::new();
        env_vars.insert("DEBUG".to_owned(), "1".to_owned());
        env_vars.insert("DOCKER_HOST".to_owned(), "unix:///var/run/docker.sock".to_owned());
        env_vars.insert("LOCALSTACK_API_KEY".to_owned(), api_key);
        let mut volumes = Dict::new();
        volumes.insert("/var/run/docker.sock".to_owned(), "/var/run/docker.sock".to_owned());
        let mut ports: Vec<u16> = Vec::new();
        ports.push(4566);
        ports.push(53);
        ports.push(443);
        let mut p: u16 = 4510;
        while p < 4560
            invariant
                4510 <= p <= 4560,
                ports@.len() == 3 + (p - 4510),
                ports@[0] == 4566u16,
                ports@[1] == 53u16,
                ports@[2] == 443u16,
                forall|i: int| 3 <= i < ports@.len() ==> ports@[i] == (4510 + (i - 3)) as u16,
            decreases 4560 - p,
        {
            ports.push(p);
            p += 1;
        }
        proof {
            assert(ports@ =~= default_ports());
        }
        LocalStackProBuilder { env_vars, tag: "latest".to_owned(), volumes, ports }
    }

    /// Replaces the whole environment map; no merge with what was there.
    pub fn set_env_vars(&mut self, env_vars: Dict)
        requires
            old(self).wf(),
            env_vars.wf(),
        ensures
            final(self).wf(),
            final(self)@.env == env_vars@,
            final(self)@.volumes == old(self)@.volumes,
            final(self)@.tag == old(self)@.tag,
            final(self)@.ports == old(self)@.ports,
    {
        self.env_vars = env_vars;
    }

    /// Replaces the whole volume map; no merge with what was there.
    pub fn set_volumes(&mut self, volumes: Dict)
        requires
            old(self).wf(),
            volumes.wf(),
        ensures
            final(self).wf(),
            final(self)@.volumes == volumes@,
            final(self)@.env == old(self)@.env,
            final(self)@.tag == old(self)@.tag,
            final(self)@.ports == old(self)@.ports,
    {
        self.volumes = volumes;
    }

    /// Replaces the tag.
    pub fn set_tag(&mut self, tag: String)
        requires
            old(self).wf(),
        ensures
            final(self).wf(),
            final(self)@.tag == tag@,
            final(self)@.env == old(self)@.env,
            final(self)@.volumes == old(self)@.volumes,
            final(self)@.ports == old(self)@.ports,
    {
        self.tag = tag;
    }

    /// Replaces the whole port list, order and duplicates kept.
    pub fn set_ports(&mut self, ports: Vec<u16>)
        requires
            old(self).wf(),
        ensures
            final(self).wf(),
            final(self)@.ports == ports@,
            final(self)@.env == old(self)@.env,
            final(self)@.volumes == old(self)@.volumes,
            final(self)@.tag == old(self)@.tag,
    {
        self.ports = ports;
    }

    /// A snapshot of the builder's current state as an immutable descriptor:
    /// the descriptor's model is the builder's model, copied field by field.
    /// The builder stays usable, and no later call on it reaches the
    /// descriptor, which owns fresh copies of every field.
    pub fn build(&self) -> (d: LocalStackPro)
        requires
            self.wf(),
        ensures
            d.wf(),
            d@ == self@,
    {
        let d = LocalStackPro {
            env_vars: self.env_vars.clone(),
            volumes: self.volumes.clone(),
            tag: self.tag.clone(),
            ports: self.ports.clone(),
        };
        proof {
            assert(d.ports@ =~= self.ports@);
        }
        d
    }
}

/// Two descriptors built from one builder, with setter calls in between,
/// differ only in the fields those setters replaced: `build` copies the
/// builder's model verbatim, so every field of the model that the setters
/// left unchanged is identical in the two snapshots.
pub proof fn lemma_two_snapshots(b1: ImageModel, b2: ImageModel, d1: ImageModel, d2: ImageModel)
    requires
        d1 == b1,
        d2 == b2,
    ensures
        b2.env == b1.env ==> d2.env == d1.env,
        b2.volumes == b1.volumes ==> d2.volumes == d1.volumes,
        b2.tag == b1.tag ==> d2.tag == d1.tag,
        b2.ports == b1.ports ==> d2.ports == d1.ports,
{
}

} // verus!
