//! The MCP servers that a proxy keeps running.
use crate::order::ascending;
use crate::split::views;
use crate::text_map::TextMap;
use vstd::prelude::*;

verus! {

/// How an MCP server is started.
#[derive(Debug)]
pub struct ServerEntry {
    pub command: String,
    pub args: Vec<String>,
    pub env: Vec<(String, String)>,
}

/// The clients of the MCP servers that run, by the name of the server.
pub struct ServerPool<C> {
    config_path: String,
    clients: TextMap<C>,
}

impl<C> View for ServerPool<C> {
    type V = Map<Seq<char>, C>;

    closed spec fn view(&self) -> Map<Seq<char>, C> {
        self.clients@
    }
}

/// What has to be done to reach a server.
pub enum PoolAction<'a, C> {
    /// Use the client of the server, which runs.
    Use(&'a C),
    /// Read how the server is started from this file, and start it.
    Start(&'a str),
}

/// The message about a server that is not configured.
pub open spec fn not_registered(server: Seq<char>) -> Seq<char> {
    "MCP server '"@ + server + "' not registered in mcp-servers.yaml"@
}

impl<C> ServerPool<C> {
    /// The clients are a map.
    pub closed spec fn wf(&self) -> bool {
        self.clients.wf()
    }

    /// Where the servers are configured.
    pub closed spec fn config(&self) -> Seq<char> {
        self.config_path@
    }

    /// A pool in which no server runs.
    pub fn new(config_path: String) -> (r: Self)
        ensures
            r.wf(),
            r@ == Map::<Seq<char>, C>::empty(),
            r.config() == config_path@,
    {
        ServerPool { config_path, clients: TextMap::new() }
    }

    /// Where the servers are configured.
    pub fn config_path(&self) -> (r: &str)
        ensures
            r@ == self.config(),
    {
        self.config_path.as_str()
    }

    /// The client of a server that runs.
    pub fn get(&self, server: &str) -> (r: Option<&C>)
        requires
            self.wf(),
        ensures
            r is Some <==> self@.contains_key(server@),
            r is Some ==> *r->0 == self@[server@],
    {
        self.clients.get(server)
    }

    /// What has to be done to reach a server: one that runs is used and not started
    /// again.
    pub fn get_or_spawn(&self, server: &str) -> (r: PoolAction<'_, C>)
        requires
            self.wf(),
        ensures
            match r {
                PoolAction::Use(c) => self@.contains_key(server@) && *c == self@[server@],
                PoolAction::Start(path) => !self@.contains_key(server@) && path@ == self.config(),
            },
    {
        match self.clients.get(server) {
            Some(c) => PoolAction::Use(c),
            None => PoolAction::Start(self.config_path.as_str()),
        }
    }

    /// Takes the outcome of the attempt to start a server: its client is kept. The client
    /// of a server that runs already stays, and nothing is kept of one that could not be
    /// started.
    pub fn spawned(&mut self, server: &str, outcome: Result<C, String>) -> (r: Result<(), String>)
        requires
            old(self).wf(),
        ensures
            final(self).wf(),
            final(self).config() == old(self).config(),
            match outcome {
                Ok(c) => r is Ok && final(self)@ == (if old(self)@.contains_key(server@) {
                    old(self)@
                } else {
                    old(self)@.insert(server@, c)
                }),
                Err(_) => final(self)@ == old(self)@ && (r matches Err(m) && m@
                    == "failed to spawn MCP server '"@ + server@ + "'"@),
            },
    {
        match outcome {
            Ok(c) => {
                if self.clients.get(server).is_none() {
                    self.clients.insert(server.to_string(), c);
                }
                Ok(())
            },
            Err(_) => {
                let mut m = "failed to spawn MCP server '".to_string();
                m.push_str(server);
                m.push_str("'");
                Err(m)
            },
        }
    }

    /// The names of the servers that run, in ascending order.
    pub fn running_servers(&self) -> (r: Vec<String>)
        requires
            self.wf(),
        ensures
            ascending(views(r@)),
            forall|k: Seq<char>| #[trigger] views(r@).contains(k) <==> self@.contains_key(k),
    {
        let mut out: Vec<String> = Vec::new();
        let n: usize = self.clients.len();
        let mut i: usize = 0;
        while i < n
            invariant
                i <= n,
                n == self.clients.keys().len(),
                out@.len() == i,
                forall|k: int| 0 <= k < i ==> (#[trigger] out@[k])@ == self.clients.keys()[k],
            decreases n - i,
        {
            out.push(self.clients.key(i).to_string());
            i = i + 1;
        }
        proof {
            assert(views(out@) =~= self.clients.keys());
            self.clients.lemma_keys();
        }
        out
    }
}

/// How a server is started, as it is configured.
pub fn load_entry<'a>(servers: &'a TextMap<ServerEntry>, server: &str) -> (r: Result<
    &'a ServerEntry,
    String,
>)
    requires
        servers.wf(),
    ensures
        match r {
            Ok(e) => servers@.contains_key(server@) && *e == servers@[server@],
            Err(m) => !servers@.contains_key(server@) && m@ == not_registered(server@),
        },
{
    match servers.get(server) {
        Some(e) => Ok(e),
        None => {
            let mut m = "MCP server '".to_string();
            m.push_str(server);
            m.push_str("' not registered in mcp-servers.yaml");
            Err(m)
        },
    }
}

/// A server that was started is reached by the client that it was started with, however
/// often others are started, and a server is started only where none runs.
pub proof fn running_servers_are_reused<C>(
    pool: Map<Seq<char>, C>,
    server: Seq<char>,
    client: C,
    other: Seq<char>,
    more: C,
)
    requires
        !pool.contains_key(server),
    ensures
        ({
            let one = pool.insert(server, client);
            let two = if one.contains_key(other) {
                one
            } else {
                one.insert(other, more)
            };
            two.contains_key(server) && two[server] == client
        }),
{
}

} // verus!
