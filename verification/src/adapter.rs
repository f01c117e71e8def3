//! The interface of outbound proxies.

use vstd::prelude::*;
use vstd::string::*;

use crate::health::DelayHistory;
use crate::metadata::Metadata;

verus! {

/// Where `name` stands in a proxy map: the position of its first entry, or the
/// map's length if it has none.
pub open spec fn position<H>(proxies: Seq<(String, H)>, name: Seq<char>) -> nat
    decreases proxies.len(),
{
    if proxies.len() == 0 || proxies[0].0@ == name {
        0
    } else {
        1 + position(proxies.drop_first(), name)
    }
}

/// `name` is a key of the proxy map.
pub open spec fn has_name<H>(proxies: Seq<(String, H)>, name: Seq<char>) -> bool {
    exists|i: int| 0 <= i < proxies.len() && (#[trigger] proxies[i]).0@ == name
}

/// The names that the proxy map knows, in order.
pub open spec fn known_names<H>(names: Seq<String>, proxies: Seq<(String, H)>) -> Seq<Seq<char>> {
    names.map_values(|name: String| name@).filter(|name: Seq<char>| has_name(proxies, name))
}

/// `entry` pairs `name` with the proxy that the map has under it.
pub open spec fn is_entry<H: Clone>(
    proxies: Seq<(String, H)>,
    name: Seq<char>,
    entry: (String, H),
) -> bool {
    &&& entry.0@ == name
    &&& cloned(proxies[position(proxies, name) as int].1, entry.1)
}

/// `found` is what looking up `names` in the proxy map gives: one pair for each
/// name that the map knows, in the order of `names`, each with the proxy of that
/// name.
pub open spec fn is_lookup<H: Clone>(
    names: Seq<String>,
    proxies: Seq<(String, H)>,
    found: Seq<(String, H)>,
) -> bool {
    let known = known_names(names, proxies);
    &&& found.len() == known.len()
    &&& forall|i: int|
        0 <= i < found.len() ==> is_entry(proxies, known[i], #[trigger] found[i])
}

/// Why an operation on a proxy failed.
#[derive(Debug)]
pub enum MeowError {
    /// The proxy does not offer the operation.
    NotSupported(String),
}

/// An outbound proxy, or a group of them.
pub trait ProxyAdapter: Send + Sync {
    /// The kinds of proxy that there are.
    type AdapterType;

    /// A shared proxy.
    type Handle: Clone;

    /// Where the proxy keeps its health record.
    type Health;

    fn name(&self) -> &str;

    fn adapter_type(&self) -> Self::AdapterType;

    fn addr(&self) -> &str;

    fn support_udp(&self) -> bool;

    /// For group adapters: the member that a connection would go through.
    fn unwrap_proxy(&self, _metadata: &Metadata) -> (proxy: Option<Self::Handle>)
        default_ensures
            proxy is None,
    {
        None
    }

    /// Per-adapter health handle. Dashboards record probe results through it.
    fn health(&self) -> &Self::Health;
}

/// A proxy with its liveness and delays.
pub trait Proxy: ProxyAdapter {
    fn alive(&self) -> bool;

    fn alive_for_url(&self, url: &str) -> bool;

    fn last_delay(&self) -> u16;

    fn last_delay_for_url(&self, url: &str) -> u16;

    fn delay_history(&self) -> Vec<DelayHistory>;

    /// For group adapters: the ordered list of member proxy names.
    /// Leaf adapters return `None`.
    fn members(&self) -> (names: Option<Vec<String>>)
        default_ensures
            names is None,
    {
        None
    }

    /// For group adapters: the members with their proxy objects, suitable for
    /// health checks. Defaults to looking up the names from [`Proxy::members`] in
    /// `proxies`, the tunnel's proxy map; groups with provider-backed members
    /// override to return proxies directly from their slots.
    fn member_proxies(&self, proxies: &Vec<(String, Self::Handle)>) -> (found: Option<
        Vec<(String, Self::Handle)>,
    >)
        default_ensures
            exists|names: Option<Vec<String>>|
                #[trigger] call_ensures(Self::members, (self,), names) && match (names, found) {
                    (None, None) => true,
                    (Some(names), Some(found)) => is_lookup(names@, proxies@, found@),
                    _ => false,
                },
    {
        match self.members() {
            Some(names) => Some(look_up_members(&names, proxies)),
            None => None,
        }
    }

    /// For group adapters: the name of the currently active member.
    fn current(&self) -> (name: Option<String>)
        default_ensures
            name is None,
    {
        None
    }
}

/// What an adapter answers that cannot run its handshake over a stream that is
/// already established.
pub fn connect_over_unsupported(name: &str) -> (error: MeowError)
    ensures
        error matches MeowError::NotSupported(text) && text@ == name@
            + ": connect_over not supported"@,
{
    let mut text = name.to_owned();
    text.append(": connect_over not supported");
    MeowError::NotSupported(text)
}

/// The first entry under a name is the first one with that name.
proof fn lemma_position<H>(proxies: Seq<(String, H)>, name: Seq<char>, n: nat)
    requires
        n <= proxies.len(),
        forall|i: int| 0 <= i < n ==> (#[trigger] proxies[i]).0@ != name,
        n < proxies.len() ==> proxies[n as int].0@ == name,
    ensures
        position(proxies, name) == n,
    decreases proxies.len(),
{
    if n > 0 {
        let rest = proxies.drop_first();
        assert(proxies[0].0@ != name);
        assert forall|i: int| 0 <= i < n - 1 implies (#[trigger] rest[i]).0@ != name by {
            assert(rest[i] == proxies[i + 1]);
        }
        lemma_position(rest, name, (n - 1) as nat);
    }
}

/// Looks up the members of a group by name in the tunnel's proxy map. A name
/// that the map does not know has no pair.
pub fn look_up_members<H: Clone>(names: &Vec<String>, proxies: &Vec<(String, H)>) -> (found: Vec<
    (String, H),
>)
    ensures
        is_lookup(names@, proxies@, found@),
        (forall|i: int| 0 <= i < names@.len() ==> has_name(proxies@, #[trigger] names@[i]@))
            ==> found@.len() == names@.len() && forall|i: int|
            0 <= i < names@.len() ==> is_entry(proxies@, names@[i]@, #[trigger] found@[i]),
{
    let mut found: Vec<(String, H)> = Vec::new();
    let mut i: usize = 0;
    let ghost texts = names@.map_values(|name: String| name@);
    let ghost known = |name: Seq<char>| has_name(proxies@, name);
    proof {
        reveal(Seq::filter);
        assert(texts.take(0).filter(known) =~= Seq::<Seq<char>>::empty());
    }
    while i < names.len()
        invariant
            i <= names@.len(),
            texts == names@.map_values(|name: String| name@),
            known == (|name: Seq<char>| has_name(proxies@, name)),
            found@.len() == texts.take(i as int).filter(known).len(),
            forall|k: int|
                0 <= k < found@.len() ==> is_entry(
                    proxies@,
                    texts.take(i as int).filter(known)[k],
                    #[trigger] found@[k],
                ),
        decreases names@.len() - i,
    {
        let name: &String = &names[i];
        let mut at: usize = 0;
        while at < proxies.len() && proxies[at].0 != *name
            invariant
                at <= proxies@.len(),
                forall|k: int| 0 <= k < at ==> (#[trigger] proxies@[k]).0@ != name@,
            decreases proxies@.len() - at,
        {
            at = at + 1;
        }
        let ghost before = found@;
        proof {
            reveal(Seq::filter);
            assert(texts.take(i + 1).drop_last() =~= texts.take(i as int));
            assert(texts.take(i + 1).last() == name@);
            lemma_position(proxies@, name@, at as nat);
        }
        if at < proxies.len() {
            proof {
                assert(proxies@[at as int].0@ == name@);
                assert(known(name@));
            }
            found.push((name.clone(), proxies[at].1.clone()));
        } else {
            assert(!known(name@));
        }
        i = i + 1;
    }
    proof {
        assert(texts.take(i as int) =~= texts);
        if forall|k: int| 0 <= k < names@.len() ==> has_name(proxies@, #[trigger] names@[k]@) {
            assert forall|k: int| 0 <= k < texts.len() implies known(#[trigger] texts[k]) by {
                assert(texts[k] == names@[k]@);
            }
            lemma_filter_all(texts, known);
        }
    }
    found
}

/// A filter that lets all elements pass changes nothing.
proof fn lemma_filter_all<A>(list: Seq<A>, pass: spec_fn(A) -> bool)
    requires
        forall|i: int| 0 <= i < list.len() ==> pass(#[trigger] list[i]),
    ensures
        list.filter(pass) == list,
    decreases list.len(),
{
    reveal(Seq::filter);
    if list.len() > 0 {
        let init = list.drop_last();
        assert forall|i: int| 0 <= i < init.len() implies pass(#[trigger] init[i]) by {
            assert(init[i] == list[i]);
        }
        lemma_filter_all(init, pass);
        assert(pass(list[list.len() - 1]));
        assert(init.push(list.last()) =~= list);
    }
}

/// A name stands where its first entry is: no entry before has that name. It is
/// known exactly if there is such an entry.
pub proof fn lemma_first_entry<H>(proxies: Seq<(String, H)>, name: Seq<char>)
    ensures
        position(proxies, name) <= proxies.len(),
        forall|i: int| 0 <= i < position(proxies, name) ==> (#[trigger] proxies[i]).0@ != name,
        position(proxies, name) < proxies.len() ==> proxies[position(proxies, name) as int].0@
            == name,
        has_name(proxies, name) <==> position(proxies, name) < proxies.len(),
    decreases proxies.len(),
{
    if proxies.len() > 0 && proxies[0].0@ != name {
        let rest = proxies.drop_first();
        lemma_first_entry(rest, name);
        assert forall|i: int| 0 <= i < position(proxies, name) implies (#[trigger] proxies[i]).0@
            != name by {
            if i > 0 {
                assert(rest[i - 1] == proxies[i]);
            }
        }
    }
    if has_name(proxies, name) {
        let at = choose|i: int| 0 <= i < proxies.len() && (#[trigger] proxies[i]).0@ == name;
        assert(proxies[at].0@ == name);
    }
}

/// Looking up no names finds nothing.
pub proof fn lemma_lookup_none<H: Clone>(proxies: Seq<(String, H)>, found: Seq<(String, H)>)
    ensures
        is_lookup(Seq::empty(), proxies, found) <==> found.len() == 0,
{
    reveal(Seq::filter);
    assert(known_names(Seq::empty(), proxies) =~= Seq::empty());
}

/// A name that no entry of the map has is passed over: looking it up after other
/// names finds what looking up those finds.
pub proof fn lemma_lookup_unknown<H: Clone>(
    names: Seq<String>,
    name: String,
    proxies: Seq<(String, H)>,
    found: Seq<(String, H)>,
)
    requires
        forall|i: int| 0 <= i < proxies.len() ==> (#[trigger] proxies[i]).0@ != name@,
    ensures
        is_lookup(names.push(name), proxies, found) <==> is_lookup(names, proxies, found),
{
    lemma_known_push(names, name, proxies);
    assert(!has_name(proxies, name@));
}

/// A name that an entry of the map has adds one pair at the end, of that name and
/// the proxy of the first such entry, to what looking up the names before finds.
pub proof fn lemma_lookup_known<H: Clone>(
    names: Seq<String>,
    name: String,
    proxies: Seq<(String, H)>,
    at: int,
    found: Seq<(String, H)>,
)
    requires
        0 <= at < proxies.len(),
        proxies[at].0@ == name@,
        forall|i: int| 0 <= i < at ==> (#[trigger] proxies[i]).0@ != name@,
    ensures
        is_lookup(names.push(name), proxies, found) <==> {
            &&& found.len() > 0
            &&& is_lookup(names, proxies, found.drop_last())
            &&& found.last().0@ == name@
            &&& cloned(proxies[at].1, found.last().1)
        },
{
    lemma_known_push(names, name, proxies);
    lemma_position(proxies, name@, at as nat);
    assert(has_name(proxies, name@));
    let known = known_names(names, proxies);
    let more = known.push(name@);
    let init = found.drop_last();
    if is_lookup(names.push(name), proxies, found) {
        assert(is_entry(proxies, more[found.len() - 1], found[found.len() - 1]));
        assert forall|i: int| 0 <= i < init.len() implies is_entry(
            proxies,
            known[i],
            #[trigger] init[i],
        ) by {
            assert(init[i] == found[i]);
            assert(more[i] == known[i]);
        }
    }
    if found.len() > 0 && is_lookup(names, proxies, init) && found.last().0@ == name@ && cloned(
        proxies[at].1,
        found.last().1,
    ) {
        assert forall|i: int| 0 <= i < found.len() implies is_entry(
            proxies,
            more[i],
            #[trigger] found[i],
        ) by {
            if i < init.len() {
                assert(init[i] == found[i]);
                assert(more[i] == known[i]);
            }
        }
    }
}

/// The names known grow by the last name exactly if the map has it.
proof fn lemma_known_push<H>(names: Seq<String>, name: String, proxies: Seq<(String, H)>)
    ensures
        known_names(names.push(name), proxies) == (if has_name(proxies, name@) {
            known_names(names, proxies).push(name@)
        } else {
            known_names(names, proxies)
        }),
{
    reveal(Seq::filter);
    let texts = names.map_values(|name: String| name@);
    let more = names.push(name).map_values(|name: String| name@);
    assert(more.drop_last() =~= texts);
    assert(more.last() == name@);
}

} // verus!
