//! Announcing the hub on the local network and keeping the list of the
//! hubs that were discovered there. The network side is the caller's.

use vstd::prelude::*;
use vstd::string::*;
use crate::ordering::{first_index, first_match, lemma_first_index_is, lemma_first_index_props, position};
use crate::text::{
    join, join_with, replace_char, replace_chars, split_at_char, split_chars, str_eq,
    str_to_lowercase, string_from_chars, string_views, to_chars, unicode_lowercase,
};

verus! {

/// A hub that was discovered on the local network.
#[derive(Debug)]
pub struct HubNode {
    pub id: String,
    pub name: String,
    pub addresses: Vec<String>,
    pub port: u16,
    pub node_type: String,
    pub services: Vec<String>,
    pub last_seen: u64,
}

/// What this hub announces.
#[derive(Debug)]
pub struct HubServiceInfo {
    pub service_name: String,
    pub port: u16,
    pub services: Vec<String>,
    pub is_running: bool,
}

/// The announcement and the discovered hubs.
#[derive(Debug)]
pub struct HubService {
    announcing: bool,
    discovered_nodes: Vec<HubNode>,
    info: HubServiceInfo,
}

fn copy_texts(v: &Vec<String>) -> (r: Vec<String>)
    ensures
        r@ == v@,
{
    let mut r: Vec<String> = Vec::new();
    let mut i: usize = 0;
    while i < v.len()
        invariant
            i <= v.len(),
            r@ == v@.take(i as int),
        decreases v.len() - i,
    {
        r.push(v[i].clone());
        assert(v@.take(i + 1) =~= v@.take(i as int).push(v@[i as int]));
        i += 1;
    }
    assert(v@.take(v.len() as int) =~= v@);
    r
}

/// The host name under which a hub called `node_name` announces itself:
/// blanks become hyphens, capitals become small letters, and `.local.`
/// follows.
pub open spec fn broadcast_hostname_text(node_name: Seq<char>) -> Seq<char> {
    unicode_lowercase(replace_char(node_name, ' ', '-')) + ".local."@
}

/// The host name under which a hub called `node_name` announces itself.
pub fn broadcast_hostname(node_name: &str) -> (r: String)
    ensures
        r@ == broadcast_hostname_text(node_name@),
{
    let n = to_chars(node_name);
    let dashed = replace_chars(&n, ' ', '-');
    let text = string_from_chars(&dashed);
    let mut r = str_to_lowercase(text.as_str());
    r.append(".local.");
    r
}

/// The `services` property of an announcement: the services, with commas
/// between them.
pub fn services_property(services: &Vec<String>) -> (r: String)
    ensures
        r@ == join_with(string_views(services@), ","@),
{
    join(services, ",")
}

/// The hub that a resolved announcement describes. Its services are the
/// parts of the `services` property between commas, none without that
/// property; its type is `unknown` without the `node_type` property.
pub fn discovered_node(
    fullname: &str,
    hostname: &str,
    addresses: Vec<String>,
    port: u16,
    services_property: Option<&str>,
    node_type_property: Option<&str>,
    seen_at: u64,
) -> (n: HubNode)
    ensures
        n.id@ == fullname@,
        n.name@ == hostname@,
        n.addresses == addresses,
        n.port == port,
        n.last_seen == seen_at,
        n.node_type@ == match node_type_property {
            Some(t) => t@,
            None => "unknown"@,
        },
        string_views(n.services@) == match services_property {
            Some(s) => split_at_char(s@, ','),
            None => Seq::<Seq<char>>::empty(),
        },
{
    let services = match services_property {
        Some(s) => {
            let v = to_chars(s);
            split_chars(&v, ',')
        },
        None => {
            let v: Vec<String> = Vec::new();
            assert(string_views(v@) =~= Seq::<Seq<char>>::empty());
            v
        },
    };
    let node_type = match node_type_property {
        Some(t) => String::from_str(t),
        None => String::from_str("unknown"),
    };
    HubNode {
        id: String::from_str(fullname),
        name: String::from_str(hostname),
        addresses,
        port,
        node_type,
        services,
        last_seen: seen_at,
    }
}

/// The test for the hub with the id `id`.
pub open spec fn node_with_id(id: Seq<char>) -> spec_fn(HubNode) -> bool {
    |n: HubNode| n.id@ == id
}

/// The test for every hub but the one with the id `id`.
pub open spec fn node_other_than(id: Seq<char>) -> spec_fn(HubNode) -> bool {
    |n: HubNode| n.id@ != id
}

/// `a` holds what `b` holds.
pub open spec fn same_node(a: HubNode, b: HubNode) -> bool {
    &&& a.id == b.id
    &&& a.name == b.name
    &&& a.addresses@ == b.addresses@
    &&& a.port == b.port
    &&& a.node_type == b.node_type
    &&& a.services@ == b.services@
    &&& a.last_seen == b.last_seen
}

/// `list` holds what `nodes` hold, one by one.
pub open spec fn same_nodes(list: Seq<HubNode>, nodes: Seq<HubNode>) -> bool {
    &&& list.len() == nodes.len()
    &&& forall|k: int| 0 <= k < list.len() ==> same_node(#[trigger] list[k], nodes[k])
}

fn copy_node(n: &HubNode) -> (r: HubNode)
    ensures
        same_node(r, *n),
{
    HubNode {
        id: n.id.clone(),
        name: n.name.clone(),
        addresses: copy_texts(&n.addresses),
        port: n.port,
        node_type: n.node_type.clone(),
        services: copy_texts(&n.services),
        last_seen: n.last_seen,
    }
}

impl HubService {
    /// The hubs that were discovered, in the order in which they first
    /// appeared.
    pub closed spec fn nodes(&self) -> Seq<HubNode> {
        self.discovered_nodes@
    }

    /// What this hub announces.
    pub closed spec fn info(&self) -> HubServiceInfo {
        self.info
    }

    /// Whether an announcement is out.
    pub closed spec fn announcing(&self) -> bool {
        self.announcing
    }

    /// A service that announces nothing and has discovered nothing.
    pub fn new() -> (s: Self)
        ensures
            s.nodes().len() == 0,
            !s.announcing(),
            s.info().service_name@.len() == 0,
            s.info().port == 9090,
            s.info().services@.len() == 0,
            !s.info().is_running,
    {
        HubService {
            announcing: false,
            discovered_nodes: Vec::new(),
            info: HubServiceInfo {
                service_name: String::new(),
                port: 9090,
                services: Vec::new(),
                is_running: false,
            },
        }
    }

    /// Records that the hub is announced under `node_name` with `services`.
    pub fn start_broadcasting(&mut self, node_name: String, services: Vec<String>)
        ensures
            final(self).announcing(),
            final(self).info().service_name == node_name,
            final(self).info().port == 9090,
            final(self).info().services == services,
            final(self).info().is_running,
            final(self).nodes() == old(self).nodes(),
    {
        self.info = HubServiceInfo { service_name: node_name, port: 9090, services, is_running: true };
        self.announcing = true;
    }

    /// Records that the announcement ends. Returns whether one was out,
    /// which the caller then withdraws.
    pub fn stop_broadcasting(&mut self) -> (withdraw: bool)
        ensures
            withdraw == old(self).announcing(),
            !final(self).announcing(),
            final(self).nodes() == old(self).nodes(),
            final(self).info().service_name == old(self).info().service_name,
            final(self).info().port == old(self).info().port,
            final(self).info().services == old(self).info().services,
            final(self).info().is_running == (old(self).info().is_running && !old(self).announcing()),
    {
        let withdraw = self.announcing;
        if withdraw {
            self.info.is_running = false;
            self.announcing = false;
        }
        withdraw
    }

    /// Takes a hub into the list: in place of the hub with the same id, or
    /// at the end.
    pub fn node_resolved(&mut self, node: HubNode)
        ensures
            final(self).announcing() == old(self).announcing(),
            final(self).info() == old(self).info(),
            first_match(final(self).nodes(), node_with_id(node.id@)) == Some(node),
            final(self).nodes() == match first_index(old(self).nodes(), node_with_id(node.id@)) {
                Some(i) => old(self).nodes().update(i, node),
                None => old(self).nodes().push(node),
            },
    {
        let found = position(
            &self.discovered_nodes,
            |n: &HubNode| -> (b: bool)
                ensures b == (n.id@ == node.id@)
                { str_eq(n.id.as_str(), node.id.as_str()) },
            Ghost(node_with_id(node.id@)),
        );
        proof {
            lemma_first_index_props(self.discovered_nodes@, node_with_id(node.id@));
        }
        match found {
            Some(i) => {
                self.discovered_nodes[i] = node;
                proof {
                    assert(self.discovered_nodes@ =~= old(self).discovered_nodes@.update(i as int, node));
                    assert forall|j: int| 0 <= j < i implies !node_with_id(node.id@)(
                        #[trigger] self.discovered_nodes@[j],
                    ) by {
                        assert(self.discovered_nodes@[j] == old(self).discovered_nodes@[j]);
                    }
                    lemma_first_index_is(self.discovered_nodes@, node_with_id(node.id@), i as int);
                }
            },
            None => {
                self.discovered_nodes.push(node);
                proof {
                    let n = old(self).discovered_nodes@.len() as int;
                    assert forall|j: int| 0 <= j < n implies !node_with_id(node.id@)(
                        #[trigger] self.discovered_nodes@[j],
                    ) by {
                        assert(self.discovered_nodes@[j] == old(self).discovered_nodes@[j]);
                    }
                    lemma_first_index_is(self.discovered_nodes@, node_with_id(node.id@), n);
                }
            },
        }
    }

    /// Takes the hub with the id `fullname` off the list.
    pub fn node_removed(&mut self, fullname: &str)
        ensures
            final(self).announcing() == old(self).announcing(),
            final(self).info() == old(self).info(),
            final(self).nodes() == old(self).nodes().filter(node_other_than(fullname@)),
    {
        let ghost before = self.discovered_nodes@;
        let ghost p = node_other_than(fullname@);
        let ghost mut k: int = 0;
        let mut i: usize = 0;
        proof {
            reveal(Seq::filter);
            assert(before.take(0) =~= Seq::<HubNode>::empty());
            assert(before.skip(0) =~= before);
        }
        while i < self.discovered_nodes.len()
            invariant
                0 <= k <= before.len(),
                p == node_other_than(fullname@),
                i == before.take(k).filter(p).len(),
                self.discovered_nodes@ == before.take(k).filter(p) + before.skip(k),
                self.announcing == old(self).announcing,
                self.info == old(self).info,
            decreases before.len() - k,
        {
            proof {
                assert(self.discovered_nodes@[i as int] == before.skip(k)[0]);
                assert(before.take(k + 1) =~= before.take(k).push(before[k]));
                before.take(k).lemma_filter_push(before[k], p);
                assert(before.skip(k + 1) =~= before.skip(k).drop_first());
            }
            if str_eq(self.discovered_nodes[i].id.as_str(), fullname) {
                let gone = self.discovered_nodes.remove(i);
                proof {
                    assert(self.discovered_nodes@ =~= before.take(k + 1).filter(p) + before.skip(k + 1));
                }
            } else {
                proof {
                    assert(self.discovered_nodes@ =~= before.take(k + 1).filter(p) + before.skip(k + 1));
                }
                i += 1;
            }
            proof {
                k = k + 1;
            }
        }
        proof {
            assert(before.take(k).filter(p).len() + before.skip(k).len() == i);
            assert(k == before.len());
            assert(before.take(k) =~= before);
            assert(self.discovered_nodes@ =~= before.filter(p));
        }
    }

    /// The hubs that were discovered.
    pub fn get_discovered_nodes(&self) -> (r: Vec<HubNode>)
        ensures
            same_nodes(r@, self.nodes()),
    {
        let mut r: Vec<HubNode> = Vec::new();
        let mut i: usize = 0;
        while i < self.discovered_nodes.len()
            invariant
                i <= self.discovered_nodes.len(),
                same_nodes(r@, self.discovered_nodes@.take(i as int)),
            decreases self.discovered_nodes.len() - i,
        {
            r.push(copy_node(&self.discovered_nodes[i]));
            i += 1;
        }
        assert(self.discovered_nodes@.take(self.discovered_nodes.len() as int)
            =~= self.discovered_nodes@);
        r
    }

    /// What this hub announces.
    pub fn get_service_info(&self) -> (r: HubServiceInfo)
        ensures
            r.service_name == self.info().service_name,
            r.port == self.info().port,
            r.services@ == self.info().services@,
            r.is_running == self.info().is_running,
    {
        HubServiceInfo {
            service_name: self.info.service_name.clone(),
            port: self.info.port,
            services: copy_texts(&self.info.services),
            is_running: self.info.is_running,
        }
    }
}

} // verus!
