use vstd::prelude::*;

verus! {

/// Which feed endpoint a connection is aimed at: the well-known primary or
/// backup server, or a custom hostname.
#[derive(Debug, Clone, PartialEq, Eq)]
pub enum Server {
    /// The primary feed server.
    Primary,
    /// The backup feed server.
    Backup,
    /// A custom hostname.
    Custom(String),
}

impl Server {
    /// The hostname this selector stands for.
    pub open spec fn hostname_spec(&self) -> Seq<char> {
        match self {
            Server::Primary => "nwws-oi.weather.gov"@,
            Server::Backup => "nwws-oi-md.weather.gov"@,
            Server::Custom(name) => name@,
        }
    }

    pub fn hostname(&self) -> (r: &str)
        ensures
            r@ == self.hostname_spec(),
    {
        match self {
            Server::Primary => "nwws-oi.weather.gov",
            Server::Backup => "nwws-oi-md.weather.gov",
            Server::Custom(name) => name.as_str(),
        }
    }
}

impl Default for Server {
    fn default() -> (r: Self)
        ensures
            r == Server::Primary,
    {
        Server::Primary
    }
}

/// The bare address of a broadcast room: an optional local part and a
/// domain, the pieces a full in-room address is built from.
#[derive(Debug, Clone, PartialEq, Eq)]
pub struct RoomAddress {
    /// The local part, absent for a domain-only address.
    pub local: Option<String>,
    /// The domain.
    pub domain: String,
}

/// The publish/subscribe room that carries the bulletins.
#[derive(Debug, Clone, PartialEq, Eq)]
pub enum Channel {
    /// The default well-known room.
    Default,
    /// A custom room address.
    Custom(RoomAddress),
}

impl Channel {
    /// The full in-room address of a participant with the given nickname.
    pub open spec fn jid_spec(&self, nickname: Seq<char>) -> Seq<char> {
        match self {
            Channel::Default => "NWWS@conference.nwws-oi.weather.gov/"@ + nickname,
            Channel::Custom(addr) => (match addr.local {
                Some(l) => l@ + "@"@,
                None => Seq::<char>::empty(),
            }) + addr.domain@ + "/"@ + nickname,
        }
    }

    pub fn jid(&self, nickname: &str) -> (r: String)
        ensures
            r@ == self.jid_spec(nickname@),
    {
        match self {
            Channel::Default => {
                let mut out = String::from_str("NWWS@conference.nwws-oi.weather.gov/");
                out.append(nickname);
                out
            },
            Channel::Custom(addr) => {
                let mut out = String::new();
                match &addr.local {
                    Some(l) => {
                        out.append(l.as_str());
                        out.append("@");
                    },
                    None => {},
                }
                out.append(addr.domain.as_str());
                out.append("/");
                out.append(nickname);
                proof {
                    assert(out@ =~= self.jid_spec(nickname@));
                }
                out
            },
        }
    }
}

impl Default for Channel {
    fn default() -> (r: Self)
        ensures
            r == Channel::Default,
    {
        Channel::Default
    }
}

/// Relies on uuid::Uuid::new_v4 for a random token, rendered through the
/// default hyphenated textual form, which is 36 characters long.  Nothing is
/// claimed of which token comes back: it is random.
#[verifier::external_body]
fn random_uuid() -> (r: String)
    ensures
        r@.len() == 36,
{
    let id = uuid::Uuid::new_v4();
    format!("{}", id)
}

/// The immutable parameters of a connection: identity, resource token,
/// target server, and target room.  Built once by the caller and cloned
/// fresh for every reconnect attempt.
#[derive(Debug, Clone, PartialEq, Eq)]
pub struct Config {
    /// The assigned feed username.
    pub username: String,
    /// The assigned feed password.
    pub password: String,
    /// The resource token for this connection.  It must be unique per
    /// username within the distribution system: concurrent connections that
    /// reuse a resource interfere with each other.
    pub resource: String,
    /// The destination server.
    pub server: Server,
    /// The room that carries the bulletins.
    pub channel: Channel,
}

impl Config {
    /// The full identity string this configuration connects as.
    pub open spec fn jid_spec(&self) -> Seq<char> {
        self.username@ + "@"@ + self.server.hostname_spec() + "/"@ + self.resource@
    }

    pub fn jid(&self) -> (r: String)
        ensures
            r@ == self.jid_spec(),
    {
        let mut out = String::new();
        out.append(self.username.as_str());
        out.append("@");
        out.append(self.server.hostname());
        out.append("/");
        out.append(self.resource.as_str());
        proof {
            assert(out@ =~= self.jid_spec());
        }
        out
    }

    /// Build a configuration from a username and password, aimed at the
    /// primary server and the default room, with a freshly generated random
    /// resource token.
    pub fn new(username: String, password: String) -> (r: Config)
        ensures
            r.username == username,
            r.password == password,
            r.server == Server::Primary,
            r.channel == Channel::Default,
            r.resource@.len() == 41,
            r.resource@.take(5) == "uuid/"@,
    {
        let mut resource = String::from_str("uuid/");
        let token = random_uuid();
        resource.append(token.as_str());
        proof {
            reveal_strlit("uuid/");
            assert(resource@.take(5) =~= "uuid/"@);
        }
        Config { username, password, resource, server: Server::Primary, channel: Channel::Default }
    }
}

} // verus!
