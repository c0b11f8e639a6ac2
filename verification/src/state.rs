//! The state pipeline: a declarative deployment document is parsed, applied
//! constituent by constituent, and reverted symmetrically, while a progress
//! stream reports each step as one framed line.

use vstd::prelude::*;

use crate::cargo_spec::{CargoSpecPartial, CargoSpecPartialView};
use crate::container::opt_str_view;
use crate::err::{ApiError, ErrorKind};
use crate::events::{Event, EventView};
use crate::generic::str_eq;
use crate::store::{cargo_key_set, Store};

verus! {

/// One line of the progress stream: a step done, or a step failed.
#[derive(Debug)]
pub enum StateStream {
    Msg(String),
    Error(String),
}

/// View of a progress line.
#[verifier::ext_equal]
pub ghost enum StateStreamView {
    Msg(Seq<char>),
    Error(Seq<char>),
}

impl View for StateStream {
    type V = StateStreamView;

    open spec fn view(&self) -> StateStreamView {
        match self {
            StateStream::Msg(s) => StateStreamView::Msg(s@),
            StateStream::Error(s) => StateStreamView::Error(s@),
        }
    }
}

/// The escaping of one character inside a framed text: the quote and the
/// backslash are escaped, the line break, carriage return and tab by their
/// short names, every other control character in its four-digit form, and
/// everything else stands as it is.
pub open spec fn spec_escape_char(c: char) -> Seq<char> {
    if c == '"' {
        seq!['\\', '"']
    } else if c == '\\' {
        seq!['\\', '\\']
    } else if c == '\n' {
        seq!['\\', 'n']
    } else if c == '\r' {
        seq!['\\', 'r']
    } else if c == '\t' {
        seq!['\\', 't']
    } else if (c as u32) < 32 {
        seq![
            '\\',
            'u',
            '0',
            '0',
            crate::text::spec_hex_digit(((c as u32) / 16) as nat),
            crate::text::spec_hex_digit(((c as u32) % 16) as nat),
        ]
    } else {
        seq![c]
    }
}

/// The escaping of a text, character by character.
pub open spec fn spec_escape(s: Seq<char>) -> Seq<char>
    decreases s.len(),
{
    if s.len() == 0 {
        Seq::<char>::empty()
    } else {
        spec_escape(s.drop_last()) + spec_escape_char(s.last())
    }
}

/// Escape a text for a framed line.
pub fn json_escape(s: &str) -> (r: String)
    ensures
        r@ == spec_escape(s@),
{
    let n = s.unicode_len();
    let mut out = String::new();
    let mut i: usize = 0;
    while i < n
        invariant
            0 <= i <= n,
            n == s@.len(),
            out@ == spec_escape(s@.take(i as int)),
        decreases n - i,
    {
        let c = s.get_char(i);
        proof {
            assert(s@.take(i + 1 as int).drop_last() =~= s@.take(i as int));
            assert(s@.take(i + 1 as int).last() == s@[i as int]);
        }
        if c == '"' {
            out.append("\\\"");
        } else if c == '\\' {
            out.append("\\\\");
        } else if c == '\n' {
            out.append("\\n");
        } else if c == '\r' {
            out.append("\\r");
        } else if c == '\t' {
            out.append("\\t");
        } else if (c as u32) < 32 {
            out.append("\\u00");
            out.append(crate::text::hex_digit_str((c as u32) / 16));
            out.append(crate::text::hex_digit_str((c as u32) % 16));
        } else {
            let one = single_char_string(c);
            out.append(one.as_str());
        }
        proof {
            reveal_strlit("\\\"");
            reveal_strlit("\\\\");
            reveal_strlit("\\n");
            reveal_strlit("\\r");
            reveal_strlit("\\t");
            reveal_strlit("\\u00");
            assert("\\u00"@ =~= seq!['\\', 'u', '0', '0']);
            assert("\\\""@ =~= seq!['\\', '"']);
            assert("\\\\"@ =~= seq!['\\', '\\']);
            assert("\\n"@ =~= seq!['\\', 'n']);
            assert("\\r"@ =~= seq!['\\', 'r']);
            assert("\\t"@ =~= seq!['\\', 't']);
            assert(out@ =~= spec_escape(s@.take(i + 1 as int)));
        }
        i += 1;
    }
    proof {
        assert(s@.take(n as int) =~= s@);
    }
    out
}

/// Relies on String::push: appending one character appends exactly that
/// character.
#[verifier::external_body]
fn single_char_string(c: char) -> (r: String)
    ensures
        r@ == seq![c],
{
    let mut s = String::new();
    s.push(c);
    s
}

/// The framed form of a progress line: one object with the one field naming
/// the outcome, closed by a carriage return and a line feed.
pub open spec fn spec_stream_frame(v: StateStreamView) -> Seq<char> {
    match v {
        StateStreamView::Msg(m) => "{\"Msg\":\""@ + spec_escape(m) + "\"}\r\n"@,
        StateStreamView::Error(m) => "{\"Error\":\""@ + spec_escape(m) + "\"}\r\n"@,
    }
}

/// Frame a progress line for the wire.
pub fn stream_to_bytes(line: &StateStream) -> (r: String)
    ensures
        r@ == spec_stream_frame(line@),
{
    proof {
        reveal_strlit("{\"Msg\":\"");
        reveal_strlit("{\"Error\":\"");
        reveal_strlit("\"}\r\n");
    }
    match line {
        StateStream::Msg(m) => {
            let mut out = String::from_str("{\"Msg\":\"");
            let esc = json_escape(m.as_str());
            out.append(esc.as_str());
            out.append("\"}\r\n");
            out
        },
        StateStream::Error(m) => {
            let mut out = String::from_str("{\"Error\":\"");
            let esc = json_escape(m.as_str());
            out.append(esc.as_str());
            out.append("\"}\r\n");
            out
        },
    }
}

/// The partial form of a resource inside a state document: its name, its
/// kind, and its payload as serialised text.
#[derive(Debug)]
pub struct ResourcePartial {
    pub name: String,
    pub kind: String,
    pub data: String,
}

/// View of a partial resource.
#[verifier::ext_equal]
pub ghost struct ResourcePartialView {
    pub name: Seq<char>,
    pub kind: Seq<char>,
    pub data: Seq<char>,
}

impl View for ResourcePartial {
    type V = ResourcePartialView;

    open spec fn view(&self) -> ResourcePartialView {
        ResourcePartialView { name: self.name@, kind: self.kind@, data: self.data@ }
    }
}

impl Clone for ResourcePartial {
    /// The clone keeps the view.
    fn clone(&self) -> (r: Self)
        ensures
            r@ == self@,
    {
        ResourcePartial {
            name: self.name.clone(),
            kind: self.kind.clone(),
            data: self.data.clone(),
        }
    }
}

/// A deployment document: an optional namespace with the lists it deploys.
#[derive(Debug)]
pub struct StateDeployment {
    pub namespace: Option<String>,
    pub cargoes: Option<Vec<CargoSpecPartial>>,
    pub resources: Option<Vec<ResourcePartial>>,
}

/// A cargo document: an optional namespace with its cargoes.
#[derive(Debug)]
pub struct StateCargo {
    pub namespace: Option<String>,
    pub cargoes: Vec<CargoSpecPartial>,
}

/// A resource document: its resources.
#[derive(Debug)]
pub struct StateResources {
    pub resources: Vec<ResourcePartial>,
}

/// A parsed state document, by its kind.
#[derive(Debug)]
pub enum StateData {
    Deployment(StateDeployment),
    Cargo(StateCargo),
    Resource(StateResources),
}

/// A state document as decoded from the wire, before its kind is settled:
/// the kind discriminator with every optional constituent list.
#[derive(Debug)]
pub struct StateDocRaw {
    pub kind: String,
    pub namespace: Option<String>,
    pub cargoes: Option<Vec<CargoSpecPartial>>,
    pub resources: Option<Vec<ResourcePartial>>,
}

/// Settle the kind of a decoded state document.
///
/// `Deployment` accepts every list as optional; `Cargo` demands its
/// cargoes and `Resource` demands its resources, each failing the parse as
/// a validation error when the list is absent; an unknown kind fails the
/// parse as a validation error.
pub fn parse_state(doc: StateDocRaw) -> (r: Result<StateData, ApiError>)
    ensures
        doc.kind@ == "Deployment"@ ==> r is Ok && r->Ok_0 is Deployment
            && r->Ok_0->Deployment_0.namespace == doc.namespace
            && r->Ok_0->Deployment_0.cargoes == doc.cargoes
            && r->Ok_0->Deployment_0.resources == doc.resources,
        doc.kind@ == "Cargo"@ ==> ((r is Ok && r->Ok_0 is Cargo) <==> doc.cargoes is Some),
        doc.kind@ == "Cargo"@ && doc.cargoes is Some ==> r->Ok_0->Cargo_0.namespace
            == doc.namespace && r->Ok_0->Cargo_0.cargoes == doc.cargoes->0,
        doc.kind@ == "Cargo"@ && doc.cargoes is None ==> r is Err && r->Err_0.kind
            == ErrorKind::Validation,
        doc.kind@ == "Resource"@ ==> ((r is Ok && r->Ok_0 is Resource) <==> doc.resources
            is Some),
        doc.kind@ == "Resource"@ && doc.resources is Some ==> r->Ok_0->Resource_0.resources
            == doc.resources->0,
        doc.kind@ == "Resource"@ && doc.resources is None ==> r is Err && r->Err_0.kind
            == ErrorKind::Validation,
        doc.kind@ != "Deployment"@ && doc.kind@ != "Cargo"@ && doc.kind@ != "Resource"@
            ==> r is Err && r->Err_0.kind == ErrorKind::Validation,
{
    proof {
        reveal_strlit("Deployment");
        reveal_strlit("Cargo");
        reveal_strlit("Resource");
        assert("Deployment"@.len() == 10);
        assert("Cargo"@.len() == 5);
        assert("Resource"@.len() == 8);
    }
    if str_eq(doc.kind.as_str(), "Deployment") {
        Ok(
            StateData::Deployment(
                StateDeployment {
                    namespace: doc.namespace,
                    cargoes: doc.cargoes,
                    resources: doc.resources,
                },
            ),
        )
    } else if str_eq(doc.kind.as_str(), "Cargo") {
        match doc.cargoes {
            Some(cargoes) => Ok(
                StateData::Cargo(StateCargo { namespace: doc.namespace, cargoes }),
            ),
            None => Err(
                ApiError::new(
                    ErrorKind::Validation,
                    String::from_str("unable to parse payload: missing cargoes"),
                ),
            ),
        }
    } else if str_eq(doc.kind.as_str(), "Resource") {
        match doc.resources {
            Some(resources) => Ok(StateData::Resource(StateResources { resources })),
            None => Err(
                ApiError::new(
                    ErrorKind::Validation,
                    String::from_str("unable to parse payload: missing resources"),
                ),
            ),
        }
    } else {
        Err(ApiError::new(ErrorKind::Validation, String::from_str("unknown type")))
    }
}

/// The header line before cargoes are applied.
pub open spec fn spec_msg_creating_cargoes(n: nat, ns: Seq<char>) -> Seq<char> {
    "Creating "@ + crate::text::spec_dec(n) + " cargoes in namespace: "@ + ns
}

/// The progress lines of one cargo of a document: a key held by a virtual
/// machine is reported as an error and skipped, any other cargo is created
/// or patched and then started.
pub open spec fn per_cargo_msgs(
    vms: Seq<crate::models::VmDbView>,
    ns: Seq<char>,
    c: CargoSpecPartialView,
) -> Seq<StateStreamView> {
    if crate::store::has_vm(vms, crate::text::spec_gen_key(ns, c.name)) {
        seq![
            StateStreamView::Msg("Creating Cargo "@ + c.name),
            StateStreamView::Error("key used by a virtual machine"@),
        ]
    } else {
        seq![
            StateStreamView::Msg("Creating Cargo "@ + c.name),
            StateStreamView::Msg("Created Cargo "@ + c.name),
            StateStreamView::Msg("Started Cargo "@ + c.name),
        ]
    }
}

/// The whole progress stream of applying a cargo list.
pub open spec fn apply_cargo_msgs(
    vms: Seq<crate::models::VmDbView>,
    ns: Seq<char>,
    items: Seq<CargoSpecPartialView>,
) -> Seq<StateStreamView> {
    seq![StateStreamView::Msg(spec_msg_creating_cargoes(items.len(), ns))]
        + items.map_values(|c: CargoSpecPartialView| per_cargo_msgs(vms, ns, c)).flatten()
}

/// The keys a cargo list deploys, leaving out keys held by virtual
/// machines.
pub open spec fn ok_cargo_doc_keys(
    vms: Seq<crate::models::VmDbView>,
    ns: Seq<char>,
    items: Seq<CargoSpecPartialView>,
) -> Set<Seq<char>> {
    Set::new(
        |k: Seq<char>|
            (exists|i: int|
                0 <= i < items.len() && k == crate::text::spec_gen_key(
                    ns,
                    (#[trigger] items[i]).name,
                )) && !crate::store::has_vm(vms, k),
    )
}

/// The keys a cargo list names, whether or not they can be deployed.
pub open spec fn cargo_doc_keys(ns: Seq<char>, items: Seq<CargoSpecPartialView>) -> Set<
    Seq<char>,
> {
    Set::new(
        |k: Seq<char>|
            exists|i: int|
                0 <= i < items.len() && k == crate::text::spec_gen_key(
                    ns,
                    (#[trigger] items[i]).name,
                ),
    )
}

/// The keys of the objects already on their way to running or there.
pub open spec fn active_key_set(
    statuses: Seq<crate::models::ObjPsStatusDbView>,
) -> Set<Seq<char>> {
    Set::new(|k: Seq<char>| crate::store::spec_obj_active(statuses, k))
}

/// The events of one applied cargo: `Patched` always, and `Starting`
/// unless the cargo was already live and on its way or running, in which
/// case the start short-circuits.
pub open spec fn per_cargo_events(short: bool, key: Seq<char>) -> Seq<EventView> {
    if short {
        seq![
            EventView {
                kind: crate::events::EventObjectKind::Cargo,
                action: crate::events::NativeEventAction::Patched,
                key,
            },
        ]
    } else {
        seq![
            EventView {
                kind: crate::events::EventObjectKind::Cargo,
                action: crate::events::NativeEventAction::Patched,
                key,
            },
            EventView {
                kind: crate::events::EventObjectKind::Cargo,
                action: crate::events::NativeEventAction::Starting,
                key,
            },
        ]
    }
}

/// The events of applying a cargo list, given the keys then live and the
/// keys then active: a key held by a virtual machine yields none, and
/// every applied cargo joins both sets.
pub open spec fn apply_cargo_events(
    vms: Seq<crate::models::VmDbView>,
    cargo_keys: Set<Seq<char>>,
    active: Set<Seq<char>>,
    ns: Seq<char>,
    items: Seq<CargoSpecPartialView>,
) -> Seq<EventView>
    decreases items.len(),
{
    if items.len() == 0 {
        Seq::<EventView>::empty()
    } else {
        let key = crate::text::spec_gen_key(ns, items[0].name);
        if crate::store::has_vm(vms, key) {
            apply_cargo_events(vms, cargo_keys, active, ns, items.drop_first())
        } else {
            per_cargo_events(cargo_keys.contains(key) && active.contains(key), key)
                + apply_cargo_events(
                vms,
                cargo_keys.insert(key),
                active.insert(key),
                ns,
                items.drop_first(),
            )
        }
    }
}

/// Create or patch one cargo of a document and request its start: an
/// absent cargo is created, a present one is patched with the payload as
/// the update; either way exactly one revision is appended, the cargo's
/// key is live and its object active afterwards, and the events handed
/// back are `Patched` plus, unless the start short-circuited, `Starting`.
/// A key held by a virtual machine fails with `AlreadyExists`, leaving
/// the store unchanged.
pub fn create_or_put_start_cargo(
    store: &mut Store,
    namespace: &str,
    item: CargoSpecPartial,
    version: &str,
    now: i64,
) -> (r: Result<Vec<Event>, ApiError>)
    requires
        old(store)@.inv(),
    ensures
        final(store)@.inv(),
        final(store)@.vms == old(store)@.vms,
        final(store)@.namespaces == old(store)@.namespaces,
        final(store)@.resources == old(store)@.resources,
        final(store)@.secrets == old(store)@.secrets,
        final(store)@.nodes == old(store)@.nodes,
        final(store)@.jobs == old(store)@.jobs,
        final(store)@.processes == old(store)@.processes,
        r is Err <==> crate::store::has_vm(
            old(store)@.vms,
            crate::text::spec_gen_key(namespace@, item@.name),
        ),
        r is Err ==> final(store)@ == old(store)@ && r->Err_0.kind
            == ErrorKind::AlreadyExists,
        r is Ok ==> cargo_key_set(final(store)@.cargoes) == cargo_key_set(
            old(store)@.cargoes,
        ).insert(crate::text::spec_gen_key(namespace@, item@.name)),
        r is Ok ==> final(store)@.specs.drop_last() == old(store)@.specs && final(store)@.specs.len() == old(store)@.specs.len() + 1,
        r is Ok ==> r->Ok_0@.map_values(|e: Event| e@) == per_cargo_events(
            crate::store::has_cargo(
                old(store)@.cargoes,
                crate::text::spec_gen_key(namespace@, item@.name),
            ) && crate::store::spec_obj_active(
                old(store)@.statuses,
                crate::text::spec_gen_key(namespace@, item@.name),
            ),
            crate::text::spec_gen_key(namespace@, item@.name),
        ),
        r is Ok ==> crate::store::spec_obj_active(
            final(store)@.statuses,
            crate::text::spec_gen_key(namespace@, item@.name),
        ),
        r is Ok ==> forall|k: Seq<char>|
            k != crate::text::spec_gen_key(namespace@, item@.name)
                ==> #[trigger] crate::store::spec_status_of(final(store)@.statuses, k)
                == crate::store::spec_status_of(old(store)@.statuses, k),
{
    let name = cargo_item_name(&item);
    let key = crate::text::gen_key(namespace, name.as_str());
    let mut events: Vec<Event> = Vec::new();
    let existed = store.read_cargo(key.as_str()).is_ok();
    if existed {
        let update = crate::cargo_spec::update_of_partial(item);
        match store.patch_cargo(key.as_str(), update, version) {
            Ok(_) => {
                proof {
                    let ci = choose|ci: int|
                        0 <= ci < old(store)@.cargoes.len() && (#[trigger] old(store)@.cargoes[ci]).key == key@ && store@.cargoes == old(store)@.cargoes.update(
                            ci,
                            crate::models::CargoDbView {
                                spec_key: store@.specs.last().key,
                                ..old(store)@.cargoes[ci]
                            },
                        );
                    crate::store::lemma_cargo_keys_update_same(
                        old(store)@.cargoes,
                        ci,
                        crate::models::CargoDbView {
                            spec_key: store@.specs.last().key,
                            ..old(store)@.cargoes[ci]
                        },
                    );
                    assert(cargo_key_set(store@.cargoes).contains(key@)) by {
                        assert(store@.cargoes[ci].key == key@);
                    }
                    assert(cargo_key_set(store@.cargoes) =~= cargo_key_set(
                        old(store)@.cargoes,
                    ).insert(key@));
                }
            },
            Err(e) => {
                proof {
                    assert(false);
                }
                return Err(e);
            },
        }
    } else {
        match store.create_cargo(namespace, item, version, now) {
            Ok(_) => {
                proof {
                    crate::store::lemma_cargo_keys_push(
                        old(store)@.cargoes,
                        store@.cargoes.last(),
                    );
                }
            },
            Err(e) => {
                return Err(e);
            },
        }
    }
    events.push(
        Event {
            kind: crate::events::EventObjectKind::Cargo,
            action: crate::events::NativeEventAction::Patched,
            key: key.clone(),
        },
    );
    let ghost mid = store@;
    match crate::process::start_process_by_kind_key(
        store,
        crate::models::ProcessKind::Cargo,
        key.as_str(),
    ) {
        Ok(Some(ev)) => {
            events.push(ev);
        },
        Ok(None) => {},
        Err(e) => {
            proof {
                assert(crate::store::has_cargo(mid.cargoes, key@)) by {
                    assert(cargo_key_set(mid.cargoes).contains(key@));
                }
                let w = choose|w: int|
                    0 <= w < mid.cargoes.len() && (#[trigger] mid.cargoes[w]).key == key@;
                assert(crate::store::has_status(mid.statuses, key@));
                assert(false);
            }
            return Err(e);
        },
    }
    Ok(events)
}

/// The name of a partial cargo spec, copied out.
fn cargo_item_name(item: &CargoSpecPartial) -> (r: String)
    ensures
        r@ == item@.name,
{
    item.name.clone()
}

/// Build a labelled progress line: the label followed by the name.
fn label_msg(label: &str, name: &str) -> (r: String)
    ensures
        r@ == label@ + name@,
{
    let mut s = label.to_owned();
    s.append(name);
    s
}

/// Apply the cargo list of a state document against a namespace: each
/// cargo in turn is announced, created or patched, and started, and the
/// store afterwards holds the union of the live keys and the document's
/// deployable keys.  A key held by a virtual machine is reported in the
/// stream as an error and skipped; the batch goes on.
pub fn apply_cargoes(
    store: &mut Store,
    namespace: &str,
    items: &Vec<CargoSpecPartial>,
    version: &str,
    now: i64,
) -> (r: (Vec<StateStream>, Vec<Event>))
    requires
        old(store)@.inv(),
    ensures
        final(store)@.inv(),
        final(store)@.vms == old(store)@.vms,
        final(store)@.namespaces == old(store)@.namespaces,
        final(store)@.resources == old(store)@.resources,
        final(store)@.secrets == old(store)@.secrets,
        final(store)@.nodes == old(store)@.nodes,
        r.0@.map_values(|m: StateStream| m@) == apply_cargo_msgs(
            old(store)@.vms,
            namespace@,
            items@.map_values(|c: CargoSpecPartial| c@),
        ),
        cargo_key_set(final(store)@.cargoes) == cargo_key_set(old(store)@.cargoes).union(
            ok_cargo_doc_keys(
                old(store)@.vms,
                namespace@,
                items@.map_values(|c: CargoSpecPartial| c@),
            ),
        ),
        r.1@.map_values(|e: Event| e@) == apply_cargo_events(
            old(store)@.vms,
            cargo_key_set(old(store)@.cargoes),
            active_key_set(old(store)@.statuses),
            namespace@,
            items@.map_values(|c: CargoSpecPartial| c@),
        ),
        final(store)@.specs.len() >= old(store)@.specs.len(),
        forall|i: int|
            0 <= i < old(store)@.specs.len() ==> #[trigger] final(store)@.specs[i] == old(store)@.specs[i],
{
    let ghost items_view = items@.map_values(|c: CargoSpecPartial| c@);
    let mut msgs: Vec<StateStream> = Vec::new();
    let mut events: Vec<Event> = Vec::new();
    let header = apply_cargoes_header(items.len(), namespace);
    msgs.push(StateStream::Msg(header));
    proof {
        assert(msgs@.map_values(|m: StateStream| m@) =~= seq![
            StateStreamView::Msg(spec_msg_creating_cargoes(items_view.len(), namespace@)),
        ]);
        assert(items_view.take(0).map_values(
            |c: CargoSpecPartialView| per_cargo_msgs(old(store)@.vms, namespace@, c),
        ).flatten() =~= Seq::<StateStreamView>::empty());
        assert(cargo_key_set(store@.cargoes) =~= cargo_key_set(old(store)@.cargoes).union(
            ok_cargo_doc_keys(old(store)@.vms, namespace@, items_view.take(0)),
        ));
        assert(items_view.skip(0) =~= items_view);
    }
    let mut i: usize = 0;
    while i < items.len()
        invariant
            0 <= i <= items@.len(),
            store@.inv(),
            items_view == items@.map_values(|c: CargoSpecPartial| c@),
            store@.vms == old(store)@.vms,
            store@.namespaces == old(store)@.namespaces,
            store@.resources == old(store)@.resources,
            store@.secrets == old(store)@.secrets,
            store@.nodes == old(store)@.nodes,
            msgs@.map_values(|m: StateStream| m@) == seq![
                StateStreamView::Msg(
                    spec_msg_creating_cargoes(items_view.len(), namespace@),
                ),
            ] + items_view.take(i as int).map_values(
                |c: CargoSpecPartialView| per_cargo_msgs(old(store)@.vms, namespace@, c),
            ).flatten(),
            cargo_key_set(store@.cargoes) == cargo_key_set(old(store)@.cargoes).union(
                ok_cargo_doc_keys(old(store)@.vms, namespace@, items_view.take(i as int)),
            ),
            apply_cargo_events(
                old(store)@.vms,
                cargo_key_set(old(store)@.cargoes),
                active_key_set(old(store)@.statuses),
                namespace@,
                items_view,
            ) == events@.map_values(|e: Event| e@) + apply_cargo_events(
                old(store)@.vms,
                cargo_key_set(store@.cargoes),
                active_key_set(store@.statuses),
                namespace@,
                items_view.skip(i as int),
            ),
            store@.specs.len() >= old(store)@.specs.len(),
            forall|j: int|
                0 <= j < old(store)@.specs.len() ==> #[trigger] store@.specs[j] == old(store)@.specs[j],
        decreases items@.len() - i,
    {
        let item = items[i].clone();
        proof {
            assert(item@ == items_view[i as int]);
        }
        let name = cargo_item_name(&item);
        proof {
            reveal_strlit("Creating Cargo ");
            reveal_strlit("Created Cargo ");
            reveal_strlit("Started Cargo ");
            reveal_strlit("key used by a virtual machine");
        }
        let ghost base = msgs@.map_values(|m: StateStream| m@);
        msgs.push(StateStream::Msg(label_msg("Creating Cargo ", name.as_str())));
        proof {
            assert(msgs@.map_values(|m: StateStream| m@) =~= base.push(
                StateStreamView::Msg("Creating Cargo "@ + items_view[i as int].name),
            ));
        }
        let ghost pre_keys = cargo_key_set(store@.cargoes);
        let ghost pre_active = active_key_set(store@.statuses);
        let ghost pre_specs = store@.specs;
        let ghost pre_events = events@.map_values(|e: Event| e@);
        let ghost rest = items_view.skip(i as int);
        proof {
            assert(rest.len() > 0);
            assert(rest[0] == items_view[i as int]);
            assert(rest.drop_first() =~= items_view.skip(i + 1 as int));
        }
        match create_or_put_start_cargo(store, namespace, item, version, now) {
            Ok(mut evs) => {
                msgs.push(StateStream::Msg(label_msg("Created Cargo ", name.as_str())));
                msgs.push(StateStream::Msg(label_msg("Started Cargo ", name.as_str())));
                proof {
                    assert(msgs@.map_values(|m: StateStream| m@) =~= base + per_cargo_msgs(
                        old(store)@.vms,
                        namespace@,
                        items_view[i as int],
                    ));
                }
                let ghost evs_view = evs@.map_values(|e: Event| e@);
                let mut j: usize = 0;
                while j < evs.len()
                    invariant
                        0 <= j <= evs@.len(),
                        evs_view == evs@.map_values(|e: Event| e@),
                        events@.map_values(|e: Event| e@) == pre_events + evs_view.take(
                            j as int,
                        ),
                    decreases evs@.len() - j,
                {
                    let ghost before_inner = events@.map_values(|e: Event| e@);
                    events.push(evs[j].clone());
                    proof {
                        assert(events@.map_values(|e: Event| e@) =~= before_inner.push(
                            evs@[j as int]@,
                        ));
                        crate::store::lemma_take_succ(evs_view, j as int);
                        assert(events@.map_values(|e: Event| e@) =~= pre_events
                            + evs_view.take(j + 1 as int));
                    }
                    j += 1;
                }
                proof {
                    assert(evs_view.take(evs@.len() as int) =~= evs_view);
                    assert(events@.map_values(|e: Event| e@) =~= pre_events + evs_view);
                }
            },
            Err(_) => {
                msgs.push(
                    StateStream::Error(String::from_str("key used by a virtual machine")),
                );
                proof {
                    assert(msgs@.map_values(|m: StateStream| m@) =~= base + per_cargo_msgs(
                        old(store)@.vms,
                        namespace@,
                        items_view[i as int],
                    ));
                }
            },
        }
        proof {
            let vms0 = old(store)@.vms;
            let f = |c: CargoSpecPartialView| per_cargo_msgs(vms0, namespace@, c);
            let key = crate::text::spec_gen_key(namespace@, items_view[i as int].name);
            crate::store::lemma_take_succ(items_view, i as int);
            assert(items_view.take(i + 1 as int).map_values(f) =~= items_view.take(
                i as int,
            ).map_values(f).push(f(items_view[i as int])));
            items_view.take(i as int).map_values(f).lemma_flatten_push(
                f(items_view[i as int]),
            );
            assert(msgs@.map_values(|m: StateStream| m@) =~= seq![
                StateStreamView::Msg(
                    spec_msg_creating_cargoes(items_view.len(), namespace@),
                ),
            ] + items_view.take(i + 1 as int).map_values(f).flatten());
            lemma_ok_keys_take_succ(vms0, namespace@, items_view, i as int);
            assert(cargo_key_set(store@.cargoes) =~= cargo_key_set(
                old(store)@.cargoes,
            ).union(ok_cargo_doc_keys(vms0, namespace@, items_view.take(i + 1 as int))));
            // The spec table only ever grows under the old revisions.
            assert forall|j: int|
                0 <= j < old(store)@.specs.len() implies #[trigger] store@.specs[j] == old(store)@.specs[j] by {
                if store@.specs.len() == pre_specs.len() + 1 {
                    assert(store@.specs.drop_last()[j] == pre_specs[j]);
                    assert(store@.specs[j] == store@.specs.drop_last()[j]);
                } else {
                    assert(store@.specs == pre_specs);
                }
            }
            // The suffix equation moves over one entry.
            if crate::store::has_vm(vms0, key) {
                assert(apply_cargo_events(vms0, pre_keys, pre_active, namespace@, rest)
                    == apply_cargo_events(
                    vms0,
                    pre_keys,
                    pre_active,
                    namespace@,
                    rest.drop_first(),
                ));
                assert(cargo_key_set(store@.cargoes) == pre_keys);
                assert(active_key_set(store@.statuses) =~= pre_active);
            } else {
                let short = pre_keys.contains(key) && pre_active.contains(key);
                assert(apply_cargo_events(vms0, pre_keys, pre_active, namespace@, rest)
                    == per_cargo_events(short, key) + apply_cargo_events(
                    vms0,
                    pre_keys.insert(key),
                    pre_active.insert(key),
                    namespace@,
                    rest.drop_first(),
                ));
                assert(cargo_key_set(store@.cargoes) =~= pre_keys.insert(key));
                assert(active_key_set(store@.statuses) =~= pre_active.insert(key));
            }
            assert(apply_cargo_events(
                old(store)@.vms,
                cargo_key_set(old(store)@.cargoes),
                active_key_set(old(store)@.statuses),
                namespace@,
                items_view,
            ) =~= events@.map_values(|e: Event| e@) + apply_cargo_events(
                old(store)@.vms,
                cargo_key_set(store@.cargoes),
                active_key_set(store@.statuses),
                namespace@,
                items_view.skip(i + 1 as int),
            ));
        }
        i += 1;
    }
    proof {
        assert(items_view.take(items@.len() as int) =~= items_view);
        assert(items_view.skip(items@.len() as int) =~= Seq::<CargoSpecPartialView>::empty());
        assert(apply_cargo_events(
            old(store)@.vms,
            cargo_key_set(store@.cargoes),
            active_key_set(store@.statuses),
            namespace@,
            Seq::<CargoSpecPartialView>::empty(),
        ) =~= Seq::<EventView>::empty());
    }
    (msgs, events)
}

/// The header line of a cargo application.
fn apply_cargoes_header(n: usize, namespace: &str) -> (r: String)
    ensures
        r@ == spec_msg_creating_cargoes(n as nat, namespace@),
{
    let mut s = String::from_str("Creating ");
    let count = crate::text::dec_string(n as u64);
    s.append(count.as_str());
    s.append(" cargoes in namespace: ");
    s.append(namespace);
    s
}

/// The header line before resources are applied.
pub open spec fn spec_msg_creating_resources(n: nat) -> Seq<char> {
    "Creating "@ + crate::text::spec_dec(n) + " resources"@
}

/// The progress lines of one resource of a document.
pub open spec fn per_resource_msgs(r: ResourcePartialView) -> Seq<StateStreamView> {
    seq![
        StateStreamView::Msg("Creating Resource "@ + r.name),
        StateStreamView::Msg("Created Resource "@ + r.name),
    ]
}

/// The whole progress stream of applying a resource list.
pub open spec fn apply_resource_msgs(items: Seq<ResourcePartialView>) -> Seq<
    StateStreamView,
> {
    seq![StateStreamView::Msg(spec_msg_creating_resources(items.len()))] + items.map_values(
        |r: ResourcePartialView| per_resource_msgs(r),
    ).flatten()
}

/// The events of applying a resource list: one `Patched` per resource, in
/// order.
pub open spec fn apply_resource_events(items: Seq<ResourcePartialView>) -> Seq<EventView> {
    items.map_values(
        |x: ResourcePartialView| EventView {
            kind: crate::events::EventObjectKind::Resource,
            action: crate::events::NativeEventAction::Patched,
            key: x.name,
        },
    )
}

/// The names a resource list deploys.
pub open spec fn resource_doc_keys(items: Seq<ResourcePartialView>) -> Set<Seq<char>> {
    Set::new(
        |k: Seq<char>|
            exists|i: int| 0 <= i < items.len() && k == (#[trigger] items[i]).name,
    )
}

/// Taking one more document entry extends the deployed names by its name.
proof fn lemma_resource_doc_keys_take_succ(items: Seq<ResourcePartialView>, i: int)
    requires
        0 <= i < items.len(),
    ensures
        resource_doc_keys(items.take(i + 1)) == resource_doc_keys(items.take(i)).insert(
            items[i].name,
        ),
{
    let a = resource_doc_keys(items.take(i + 1));
    let b = resource_doc_keys(items.take(i)).insert(items[i].name);
    assert forall|k: Seq<char>| a.contains(k) implies b.contains(k) by {
        let j = choose|j: int|
            0 <= j < items.take(i + 1).len() && k == (#[trigger] items.take(i + 1)[j]).name;
        if j < i {
            assert(items.take(i)[j] == items.take(i + 1)[j]);
        } else {
            assert(items.take(i + 1)[j] == items[i]);
        }
    }
    assert forall|k: Seq<char>| b.contains(k) implies a.contains(k) by {
        if k == items[i].name {
            assert(items.take(i + 1)[i] == items[i]);
        } else {
            let j = choose|j: int|
                0 <= j < items.take(i).len() && k == (#[trigger] items.take(i)[j]).name;
            assert(items.take(i + 1)[j] == items.take(i)[j]);
        }
    }
    assert(a =~= b);
}

/// Apply the resource list of a state document: each resource in turn is
/// announced and created or patched, and the store afterwards holds the
/// union of the live resource names and the document's names.
pub fn apply_resources(store: &mut Store, items: &Vec<ResourcePartial>, version: &str, now: i64)
    -> (r: (Vec<StateStream>, Vec<Event>))
    requires
        old(store)@.inv(),
    ensures
        final(store)@.inv(),
        final(store)@.vms == old(store)@.vms,
        final(store)@.cargoes == old(store)@.cargoes,
        final(store)@.namespaces == old(store)@.namespaces,
        final(store)@.secrets == old(store)@.secrets,
        final(store)@.statuses == old(store)@.statuses,
        final(store)@.processes == old(store)@.processes,
        final(store)@.nodes == old(store)@.nodes,
        r.0@.map_values(|m: StateStream| m@) == apply_resource_msgs(
            items@.map_values(|x: ResourcePartial| x@),
        ),
        crate::store::resource_key_set(final(store)@.resources) == crate::store::resource_key_set(
            old(store)@.resources,
        ).union(resource_doc_keys(items@.map_values(|x: ResourcePartial| x@))),
        r.1@.map_values(|e: Event| e@) == apply_resource_events(
            items@.map_values(|x: ResourcePartial| x@),
        ),
        final(store)@.specs.len() >= old(store)@.specs.len(),
        forall|i: int|
            0 <= i < old(store)@.specs.len() ==> #[trigger] final(store)@.specs[i] == old(store)@.specs[i],
{
    let ghost items_view = items@.map_values(|x: ResourcePartial| x@);
    let mut msgs: Vec<StateStream> = Vec::new();
    let mut events: Vec<Event> = Vec::new();
    let mut header = String::from_str("Creating ");
    let count = crate::text::dec_string(items.len() as u64);
    header.append(count.as_str());
    header.append(" resources");
    proof {
        reveal_strlit("Creating ");
        reveal_strlit(" resources");
    }
    msgs.push(StateStream::Msg(header));
    proof {
        assert(msgs@.map_values(|m: StateStream| m@) =~= seq![
            StateStreamView::Msg(spec_msg_creating_resources(items_view.len())),
        ]);
        assert(items_view.take(0).map_values(|x: ResourcePartialView| per_resource_msgs(x))
            .flatten() =~= Seq::<StateStreamView>::empty());
        assert(crate::store::resource_key_set(store@.resources)
            =~= crate::store::resource_key_set(old(store)@.resources).union(
            resource_doc_keys(items_view.take(0)),
        ));
    }
    let mut i: usize = 0;
    while i < items.len()
        invariant
            0 <= i <= items@.len(),
            store@.inv(),
            items_view == items@.map_values(|x: ResourcePartial| x@),
            store@.vms == old(store)@.vms,
            store@.cargoes == old(store)@.cargoes,
            store@.namespaces == old(store)@.namespaces,
            store@.secrets == old(store)@.secrets,
            store@.statuses == old(store)@.statuses,
            store@.processes == old(store)@.processes,
            store@.nodes == old(store)@.nodes,
            msgs@.map_values(|m: StateStream| m@) == seq![
                StateStreamView::Msg(spec_msg_creating_resources(items_view.len())),
            ] + items_view.take(i as int).map_values(
                |x: ResourcePartialView| per_resource_msgs(x),
            ).flatten(),
            crate::store::resource_key_set(store@.resources)
                == crate::store::resource_key_set(old(store)@.resources).union(
                resource_doc_keys(items_view.take(i as int)),
            ),
            events@.map_values(|e: Event| e@) == apply_resource_events(
                items_view.take(i as int),
            ),
            store@.specs.len() >= old(store)@.specs.len(),
            forall|j: int|
                0 <= j < old(store)@.specs.len() ==> #[trigger] store@.specs[j] == old(store)@.specs[j],
        decreases items@.len() - i,
    {
        let item = items[i].clone();
        proof {
            assert(item@ == items_view[i as int]);
            reveal_strlit("Creating Resource ");
            reveal_strlit("Created Resource ");
        }
        let ghost base = msgs@.map_values(|m: StateStream| m@);
        msgs.push(StateStream::Msg(label_msg("Creating Resource ", item.name.as_str())));
        let ghost pre = store@;
        let _ = store.create_or_patch_resource(
            item.name.as_str(),
            item.kind.as_str(),
            item.data,
            version,
            now,
        );
        msgs.push(StateStream::Msg(label_msg("Created Resource ", item.name.as_str())));
        let ghost events_before = events@.map_values(|e: Event| e@);
        events.push(
            Event {
                kind: crate::events::EventObjectKind::Resource,
                action: crate::events::NativeEventAction::Patched,
                key: item.name,
            },
        );
        proof {
            assert(events@.map_values(|e: Event| e@) =~= events_before.push(
                EventView {
                    kind: crate::events::EventObjectKind::Resource,
                    action: crate::events::NativeEventAction::Patched,
                    key: items_view[i as int].name,
                },
            ));
            assert(apply_resource_events(items_view.take(i + 1 as int))
                =~= apply_resource_events(items_view.take(i as int)).push(
                EventView {
                    kind: crate::events::EventObjectKind::Resource,
                    action: crate::events::NativeEventAction::Patched,
                    key: items_view[i as int].name,
                },
            ));
            let f = |x: ResourcePartialView| per_resource_msgs(x);
            assert(msgs@.map_values(|m: StateStream| m@) =~= base + per_resource_msgs(
                items_view[i as int],
            ));
            crate::store::lemma_take_succ(items_view, i as int);
            assert(items_view.take(i + 1 as int).map_values(f) =~= items_view.take(
                i as int,
            ).map_values(f).push(f(items_view[i as int])));
            items_view.take(i as int).map_values(f).lemma_flatten_push(
                f(items_view[i as int]),
            );
            assert(msgs@.map_values(|m: StateStream| m@) =~= seq![
                StateStreamView::Msg(spec_msg_creating_resources(items_view.len())),
            ] + items_view.take(i + 1 as int).map_values(f).flatten());
            lemma_resource_doc_keys_take_succ(items_view, i as int);
            // The spec table only ever grows under the old revisions.
            assert forall|j: int|
                0 <= j < old(store)@.specs.len() implies #[trigger] store@.specs[j] == old(store)@.specs[j] by {
                assert(store@.specs.drop_last()[j] == pre.specs[j]);
                assert(store@.specs[j] == store@.specs.drop_last()[j]);
            }
            let name = items_view[i as int].name;
            if crate::store::has_resource(pre.resources, name) {
                let ri = choose|ri: int|
                    0 <= ri < pre.resources.len() && (#[trigger] pre.resources[ri]).key
                        == name && store@.resources == pre.resources.update(
                        ri,
                        crate::models::ResourceDbView {
                            spec_key: store@.specs.last().key,
                            ..pre.resources[ri]
                        },
                    );
                crate::store::lemma_resource_keys_update_same(
                    pre.resources,
                    ri,
                    crate::models::ResourceDbView {
                        spec_key: store@.specs.last().key,
                        ..pre.resources[ri]
                    },
                );
                assert(crate::store::resource_key_set(pre.resources).contains(name)) by {
                    assert(pre.resources[ri].key == name);
                }
            } else {
                crate::store::lemma_resource_keys_push(
                    pre.resources,
                    store@.resources.last(),
                );
            }
            assert(crate::store::resource_key_set(store@.resources)
                =~= crate::store::resource_key_set(old(store)@.resources).union(
                resource_doc_keys(items_view.take(i + 1 as int)),
            ));
        }
        i += 1;
    }
    proof {
        assert(items_view.take(items@.len() as int) =~= items_view);
    }
    (msgs, events)
}

/// Taking one more document entry extends the deployable keys by its key,
/// unless a virtual machine holds it.
proof fn lemma_ok_keys_take_succ(
    vms: Seq<crate::models::VmDbView>,
    ns: Seq<char>,
    items: Seq<CargoSpecPartialView>,
    i: int,
)
    requires
        0 <= i < items.len(),
    ensures
        ok_cargo_doc_keys(vms, ns, items.take(i + 1)) == if !crate::store::has_vm(
            vms,
            crate::text::spec_gen_key(ns, items[i].name),
        ) {
            ok_cargo_doc_keys(vms, ns, items.take(i)).insert(
                crate::text::spec_gen_key(ns, items[i].name),
            )
        } else {
            ok_cargo_doc_keys(vms, ns, items.take(i))
        },
{
    let key = crate::text::spec_gen_key(ns, items[i].name);
    let a = ok_cargo_doc_keys(vms, ns, items.take(i + 1));
    assert forall|k: Seq<char>| a.contains(k) implies (ok_cargo_doc_keys(
        vms,
        ns,
        items.take(i),
    ).contains(k) || (k == key && !crate::store::has_vm(vms, k))) by {
        let j = choose|j: int|
            0 <= j < items.take(i + 1).len() && k == crate::text::spec_gen_key(
                ns,
                (#[trigger] items.take(i + 1)[j]).name,
            );
        if j < i {
            assert(items.take(i)[j] == items.take(i + 1)[j]);
        } else {
            assert(items.take(i + 1)[j] == items[i]);
        }
    }
    assert forall|k: Seq<char>|
        ok_cargo_doc_keys(vms, ns, items.take(i)).contains(k) implies a.contains(k) by {
        let j = choose|j: int|
            0 <= j < items.take(i).len() && k == crate::text::spec_gen_key(
                ns,
                (#[trigger] items.take(i)[j]).name,
            );
        assert(items.take(i + 1)[j] == items.take(i)[j]);
    }
    if !crate::store::has_vm(vms, key) {
        assert(items.take(i + 1)[i] == items[i]);
        assert(a.contains(key));
        assert(a =~= ok_cargo_doc_keys(vms, ns, items.take(i)).insert(key));
    } else {
        assert(a =~= ok_cargo_doc_keys(vms, ns, items.take(i)));
    }
}

/// The header line before cargoes are reverted.
pub open spec fn spec_msg_deleting_cargoes(n: nat, ns: Seq<char>) -> Seq<char> {
    "Deleting "@ + crate::text::spec_dec(n) + " cargoes in namespace "@ + ns
}

/// The progress lines of reverting a cargo list, given the keys then live:
/// a listed cargo that is live is deleted and reported, one that is not is
/// skipped and reported as not found.
pub open spec fn revert_cargo_msgs(
    keys: Set<Seq<char>>,
    ns: Seq<char>,
    items: Seq<CargoSpecPartialView>,
) -> Seq<StateStreamView>
    decreases items.len(),
{
    if items.len() == 0 {
        Seq::<StateStreamView>::empty()
    } else {
        let key = crate::text::spec_gen_key(ns, items[0].name);
        if keys.contains(key) {
            seq![
                StateStreamView::Msg("Deleting Cargo "@ + items[0].name),
                StateStreamView::Msg("Deleted Cargo "@ + items[0].name),
            ] + revert_cargo_msgs(keys.remove(key), ns, items.drop_first())
        } else {
            seq![
                StateStreamView::Msg("Skipping Cargo "@ + items[0].name + " [NOT FOUND]"@),
            ] + revert_cargo_msgs(keys, ns, items.drop_first())
        }
    }
}

/// The events of reverting a cargo list, given the keys then live: one
/// `Deleted` per cargo actually deleted, in order; a skipped cargo yields
/// none.
pub open spec fn revert_cargo_events(
    keys: Set<Seq<char>>,
    ns: Seq<char>,
    items: Seq<CargoSpecPartialView>,
) -> Seq<EventView>
    decreases items.len(),
{
    if items.len() == 0 {
        Seq::<EventView>::empty()
    } else {
        let key = crate::text::spec_gen_key(ns, items[0].name);
        if keys.contains(key) {
            seq![
                EventView {
                    kind: crate::events::EventObjectKind::Cargo,
                    action: crate::events::NativeEventAction::Deleted,
                    key,
                },
            ] + revert_cargo_events(keys.remove(key), ns, items.drop_first())
        } else {
            revert_cargo_events(keys, ns, items.drop_first())
        }
    }
}

/// Revert the cargo list of a state document against a namespace: each
/// listed cargo that is live is deleted with its revisions, processes and
/// status; one that is not live is skipped.  The live keys afterwards are
/// the old keys less the document's keys; cargoes the document does not
/// name keep their rows.
pub fn revert_cargoes(store: &mut Store, namespace: &str, items: &Vec<CargoSpecPartial>) -> (r:
    (Vec<StateStream>, Vec<Event>))
    requires
        old(store)@.inv(),
    ensures
        final(store)@.inv(),
        final(store)@.vms == old(store)@.vms,
        final(store)@.resources == old(store)@.resources,
        final(store)@.namespaces == old(store)@.namespaces,
        final(store)@.secrets == old(store)@.secrets,
        final(store)@.nodes == old(store)@.nodes,
        r.0@.map_values(|m: StateStream| m@) == seq![
            StateStreamView::Msg(
                spec_msg_deleting_cargoes(items@.len() as nat, namespace@),
            ),
        ] + revert_cargo_msgs(
            cargo_key_set(old(store)@.cargoes),
            namespace@,
            items@.map_values(|c: CargoSpecPartial| c@),
        ),
        cargo_key_set(final(store)@.cargoes) == cargo_key_set(
            old(store)@.cargoes,
        ).difference(
            cargo_doc_keys(namespace@, items@.map_values(|c: CargoSpecPartial| c@)),
        ),
        r.1@.map_values(|e: Event| e@) == revert_cargo_events(
            cargo_key_set(old(store)@.cargoes),
            namespace@,
            items@.map_values(|c: CargoSpecPartial| c@),
        ),
{
    let ghost items_view = items@.map_values(|c: CargoSpecPartial| c@);
    let ghost old_keys = cargo_key_set(old(store)@.cargoes);
    let mut msgs: Vec<StateStream> = Vec::new();
    let mut events: Vec<Event> = Vec::new();
    let mut header = String::from_str("Deleting ");
    let count = crate::text::dec_string(items.len() as u64);
    header.append(count.as_str());
    header.append(" cargoes in namespace ");
    header.append(namespace);
    proof {
        reveal_strlit("Deleting ");
        reveal_strlit(" cargoes in namespace ");
    }
    msgs.push(StateStream::Msg(header));
    proof {
        assert(msgs@.map_values(|m: StateStream| m@) =~= seq![
            StateStreamView::Msg(
                spec_msg_deleting_cargoes(items_view.len(), namespace@),
            ),
        ]);
        assert(items_view.skip(0) =~= items_view);
        assert(cargo_key_set(store@.cargoes) =~= old_keys.difference(
            cargo_doc_keys(namespace@, items_view.take(0)),
        ));
    }
    let mut i: usize = 0;
    while i < items.len()
        invariant
            0 <= i <= items@.len(),
            store@.inv(),
            items_view == items@.map_values(|c: CargoSpecPartial| c@),
            old_keys == cargo_key_set(old(store)@.cargoes),
            store@.vms == old(store)@.vms,
            store@.resources == old(store)@.resources,
            store@.namespaces == old(store)@.namespaces,
            store@.secrets == old(store)@.secrets,
            store@.nodes == old(store)@.nodes,
            seq![
                StateStreamView::Msg(
                    spec_msg_deleting_cargoes(items_view.len(), namespace@),
                ),
            ] + revert_cargo_msgs(old_keys, namespace@, items_view) == msgs@.map_values(
                |m: StateStream| m@,
            ) + revert_cargo_msgs(
                cargo_key_set(store@.cargoes),
                namespace@,
                items_view.skip(i as int),
            ),
            cargo_key_set(store@.cargoes) == old_keys.difference(
                cargo_doc_keys(namespace@, items_view.take(i as int)),
            ),
            revert_cargo_events(old_keys, namespace@, items_view) == events@.map_values(
                |e: Event| e@,
            ) + revert_cargo_events(
                cargo_key_set(store@.cargoes),
                namespace@,
                items_view.skip(i as int),
            ),
        decreases items@.len() - i,
    {
        let item_name = cargo_item_name(&items[i]);
        let key = crate::text::gen_key(namespace, item_name.as_str());
        let ghost rest = items_view.skip(i as int);
        let ghost cur_keys = cargo_key_set(store@.cargoes);
        proof {
            assert(rest.len() > 0);
            assert(rest[0] == items_view[i as int]);
            assert(rest.drop_first() =~= items_view.skip(i + 1 as int));
            reveal_strlit("Deleting Cargo ");
            reveal_strlit("Deleted Cargo ");
            reveal_strlit("Skipping Cargo ");
            reveal_strlit(" [NOT FOUND]");
        }
        let ghost base = msgs@.map_values(|m: StateStream| m@);
        let existed = store.read_cargo(key.as_str()).is_ok();
        proof {
            assert(existed == cur_keys.contains(key@)) by {
                if crate::store::has_cargo(store@.cargoes, key@) {
                    let w = choose|w: int|
                        0 <= w < store@.cargoes.len() && (#[trigger] store@.cargoes[w]).key
                            == key@;
                    assert(cur_keys.contains(key@));
                }
                if cur_keys.contains(key@) {
                    assert(crate::store::has_cargo(store@.cargoes, key@));
                }
            }
        }
        if existed {
            msgs.push(StateStream::Msg(label_msg("Deleting Cargo ", item_name.as_str())));
            let ghost pre_cargoes = store@.cargoes;
            let dr = store.delete_cargo(key.as_str());
            proof {
                assert(dr is Ok);
                crate::store::lemma_cargo_keys_filter(pre_cargoes, key@);
            }
            msgs.push(StateStream::Msg(label_msg("Deleted Cargo ", item_name.as_str())));
            let ghost events_before = events@.map_values(|e: Event| e@);
            let ghost key_view = key@;
            events.push(
                Event {
                    kind: crate::events::EventObjectKind::Cargo,
                    action: crate::events::NativeEventAction::Deleted,
                    key: key,
                },
            );
            proof {
                assert(msgs@.map_values(|m: StateStream| m@) =~= base + seq![
                    StateStreamView::Msg("Deleting Cargo "@ + items_view[i as int].name),
                    StateStreamView::Msg("Deleted Cargo "@ + items_view[i as int].name),
                ]);
                assert(events@.map_values(|e: Event| e@) =~= events_before.push(
                    EventView {
                        kind: crate::events::EventObjectKind::Cargo,
                        action: crate::events::NativeEventAction::Deleted,
                        key: key_view,
                    },
                ));
            }
        } else {
            let mut skip_msg = String::from_str("Skipping Cargo ");
            skip_msg.append(item_name.as_str());
            skip_msg.append(" [NOT FOUND]");
            msgs.push(StateStream::Msg(skip_msg));
            proof {
                assert(msgs@.map_values(|m: StateStream| m@) =~= base + seq![
                    StateStreamView::Msg(
                        "Skipping Cargo "@ + items_view[i as int].name + " [NOT FOUND]"@,
                    ),
                ]);
            }
        }
        proof {
            let key_v = crate::text::spec_gen_key(namespace@, items_view[i as int].name);
            assert(key@ == key_v);
            // The recursion unfolds by one entry.
            if cur_keys.contains(key_v) {
                assert(revert_cargo_msgs(cur_keys, namespace@, rest) == seq![
                    StateStreamView::Msg("Deleting Cargo "@ + rest[0].name),
                    StateStreamView::Msg("Deleted Cargo "@ + rest[0].name),
                ] + revert_cargo_msgs(cur_keys.remove(key_v), namespace@, rest.drop_first()));
                assert(revert_cargo_events(cur_keys, namespace@, rest) == seq![
                    EventView {
                        kind: crate::events::EventObjectKind::Cargo,
                        action: crate::events::NativeEventAction::Deleted,
                        key: key_v,
                    },
                ] + revert_cargo_events(
                    cur_keys.remove(key_v),
                    namespace@,
                    rest.drop_first(),
                ));
                assert(cargo_key_set(store@.cargoes) =~= cur_keys.remove(key_v));
            } else {
                assert(revert_cargo_msgs(cur_keys, namespace@, rest) == seq![
                    StateStreamView::Msg(
                        "Skipping Cargo "@ + rest[0].name + " [NOT FOUND]"@,
                    ),
                ] + revert_cargo_msgs(cur_keys, namespace@, rest.drop_first()));
                assert(revert_cargo_events(cur_keys, namespace@, rest)
                    == revert_cargo_events(cur_keys, namespace@, rest.drop_first()));
            }
            assert(seq![
                StateStreamView::Msg(
                    spec_msg_deleting_cargoes(items_view.len(), namespace@),
                ),
            ] + revert_cargo_msgs(old_keys, namespace@, items_view) =~= msgs@.map_values(
                |m: StateStream| m@,
            ) + revert_cargo_msgs(
                cargo_key_set(store@.cargoes),
                namespace@,
                items_view.skip(i + 1 as int),
            ));
            assert(revert_cargo_events(old_keys, namespace@, items_view)
                =~= events@.map_values(|e: Event| e@) + revert_cargo_events(
                cargo_key_set(store@.cargoes),
                namespace@,
                items_view.skip(i + 1 as int),
            ));
            // The live keys drop exactly the processed keys.
            lemma_cargo_doc_keys_take_succ(namespace@, items_view, i as int);
            assert(cargo_key_set(store@.cargoes) =~= old_keys.difference(
                cargo_doc_keys(namespace@, items_view.take(i + 1 as int)),
            ));
        }
        i += 1;
    }
    proof {
        assert(items_view.skip(items@.len() as int) =~= Seq::<CargoSpecPartialView>::empty());
        assert(revert_cargo_msgs(
            cargo_key_set(store@.cargoes),
            namespace@,
            Seq::<CargoSpecPartialView>::empty(),
        ) =~= Seq::<StateStreamView>::empty());
        assert(revert_cargo_events(
            cargo_key_set(store@.cargoes),
            namespace@,
            Seq::<CargoSpecPartialView>::empty(),
        ) =~= Seq::<EventView>::empty());
        assert(msgs@.map_values(|m: StateStream| m@) =~= seq![
            StateStreamView::Msg(
                spec_msg_deleting_cargoes(items_view.len(), namespace@),
            ),
        ] + revert_cargo_msgs(old_keys, namespace@, items_view));
        assert(events@.map_values(|e: Event| e@) =~= revert_cargo_events(
            old_keys,
            namespace@,
            items_view,
        ));
        assert(items_view.take(items@.len() as int) =~= items_view);
    }
    (msgs, events)
}

/// Taking one more document entry extends the named keys by its key.
proof fn lemma_cargo_doc_keys_take_succ(
    ns: Seq<char>,
    items: Seq<CargoSpecPartialView>,
    i: int,
)
    requires
        0 <= i < items.len(),
    ensures
        cargo_doc_keys(ns, items.take(i + 1)) == cargo_doc_keys(ns, items.take(i)).insert(
            crate::text::spec_gen_key(ns, items[i].name),
        ),
{
    let key = crate::text::spec_gen_key(ns, items[i].name);
    let a = cargo_doc_keys(ns, items.take(i + 1));
    let b = cargo_doc_keys(ns, items.take(i)).insert(key);
    assert forall|k: Seq<char>| a.contains(k) implies b.contains(k) by {
        let j = choose|j: int|
            0 <= j < items.take(i + 1).len() && k == crate::text::spec_gen_key(
                ns,
                (#[trigger] items.take(i + 1)[j]).name,
            );
        if j < i {
            assert(items.take(i)[j] == items.take(i + 1)[j]);
        } else {
            assert(items.take(i + 1)[j] == items[i]);
        }
    }
    assert forall|k: Seq<char>| b.contains(k) implies a.contains(k) by {
        if k == key {
            assert(items.take(i + 1)[i] == items[i]);
        } else {
            let j = choose|j: int|
                0 <= j < items.take(i).len() && k == crate::text::spec_gen_key(
                    ns,
                    (#[trigger] items.take(i)[j]).name,
                );
            assert(items.take(i + 1)[j] == items.take(i)[j]);
        }
    }
    assert(a =~= b);
}

/// The header line before resources are reverted.
pub open spec fn spec_msg_deleting_resources(n: nat) -> Seq<char> {
    "Deleting "@ + crate::text::spec_dec(n) + " resources"@
}

/// The progress lines of reverting a resource list, given the names then
/// live.
pub open spec fn revert_resource_msgs(
    keys: Set<Seq<char>>,
    items: Seq<ResourcePartialView>,
) -> Seq<StateStreamView>
    decreases items.len(),
{
    if items.len() == 0 {
        Seq::<StateStreamView>::empty()
    } else {
        if keys.contains(items[0].name) {
            seq![
                StateStreamView::Msg("Deleting Resource "@ + items[0].name),
                StateStreamView::Msg("Deleted Resource "@ + items[0].name),
            ] + revert_resource_msgs(keys.remove(items[0].name), items.drop_first())
        } else {
            seq![
                StateStreamView::Msg(
                    "Skipping Resource "@ + items[0].name + " [NOT FOUND]"@,
                ),
            ] + revert_resource_msgs(keys, items.drop_first())
        }
    }
}

/// The events of reverting a resource list, given the names then live: one
/// `Deleted` per resource actually deleted, in order.
pub open spec fn revert_resource_events(
    keys: Set<Seq<char>>,
    items: Seq<ResourcePartialView>,
) -> Seq<EventView>
    decreases items.len(),
{
    if items.len() == 0 {
        Seq::<EventView>::empty()
    } else {
        if keys.contains(items[0].name) {
            seq![
                EventView {
                    kind: crate::events::EventObjectKind::Resource,
                    action: crate::events::NativeEventAction::Deleted,
                    key: items[0].name,
                },
            ] + revert_resource_events(keys.remove(items[0].name), items.drop_first())
        } else {
            revert_resource_events(keys, items.drop_first())
        }
    }
}

/// Revert the resource list of a state document: each listed resource that
/// is live is deleted with its revisions; one that is not live is skipped.
/// The live names afterwards are the old names less the document's.
pub fn revert_resources(store: &mut Store, items: &Vec<ResourcePartial>) -> (r: (
    Vec<StateStream>,
    Vec<Event>,
))
    requires
        old(store)@.inv(),
    ensures
        final(store)@.inv(),
        final(store)@.vms == old(store)@.vms,
        final(store)@.cargoes == old(store)@.cargoes,
        final(store)@.namespaces == old(store)@.namespaces,
        final(store)@.secrets == old(store)@.secrets,
        final(store)@.statuses == old(store)@.statuses,
        final(store)@.processes == old(store)@.processes,
        final(store)@.nodes == old(store)@.nodes,
        r.0@.map_values(|m: StateStream| m@) == seq![
            StateStreamView::Msg(spec_msg_deleting_resources(items@.len() as nat)),
        ] + revert_resource_msgs(
            crate::store::resource_key_set(old(store)@.resources),
            items@.map_values(|x: ResourcePartial| x@),
        ),
        crate::store::resource_key_set(final(store)@.resources)
            == crate::store::resource_key_set(old(store)@.resources).difference(
            resource_doc_keys(items@.map_values(|x: ResourcePartial| x@)),
        ),
        r.1@.map_values(|e: Event| e@) == revert_resource_events(
            crate::store::resource_key_set(old(store)@.resources),
            items@.map_values(|x: ResourcePartial| x@),
        ),
{
    let ghost items_view = items@.map_values(|x: ResourcePartial| x@);
    let ghost old_keys = crate::store::resource_key_set(old(store)@.resources);
    let mut msgs: Vec<StateStream> = Vec::new();
    let mut events: Vec<Event> = Vec::new();
    let mut header = String::from_str("Deleting ");
    let count = crate::text::dec_string(items.len() as u64);
    header.append(count.as_str());
    header.append(" resources");
    proof {
        reveal_strlit("Deleting ");
        reveal_strlit(" resources");
    }
    msgs.push(StateStream::Msg(header));
    proof {
        assert(msgs@.map_values(|m: StateStream| m@) =~= seq![
            StateStreamView::Msg(spec_msg_deleting_resources(items_view.len())),
        ]);
        assert(items_view.skip(0) =~= items_view);
        assert(crate::store::resource_key_set(store@.resources) =~= old_keys.difference(
            resource_doc_keys(items_view.take(0)),
        ));
    }
    let mut i: usize = 0;
    while i < items.len()
        invariant
            0 <= i <= items@.len(),
            store@.inv(),
            items_view == items@.map_values(|x: ResourcePartial| x@),
            old_keys == crate::store::resource_key_set(old(store)@.resources),
            store@.vms == old(store)@.vms,
            store@.cargoes == old(store)@.cargoes,
            store@.namespaces == old(store)@.namespaces,
            store@.secrets == old(store)@.secrets,
            store@.statuses == old(store)@.statuses,
            store@.processes == old(store)@.processes,
            store@.nodes == old(store)@.nodes,
            seq![
                StateStreamView::Msg(spec_msg_deleting_resources(items_view.len())),
            ] + revert_resource_msgs(old_keys, items_view) == msgs@.map_values(
                |m: StateStream| m@,
            ) + revert_resource_msgs(
                crate::store::resource_key_set(store@.resources),
                items_view.skip(i as int),
            ),
            crate::store::resource_key_set(store@.resources) == old_keys.difference(
                resource_doc_keys(items_view.take(i as int)),
            ),
            revert_resource_events(old_keys, items_view) == events@.map_values(
                |e: Event| e@,
            ) + revert_resource_events(
                crate::store::resource_key_set(store@.resources),
                items_view.skip(i as int),
            ),
        decreases items@.len() - i,
    {
        let item_name = items[i].name.clone();
        let ghost rest = items_view.skip(i as int);
        let ghost cur_keys = crate::store::resource_key_set(store@.resources);
        proof {
            assert(rest.len() > 0);
            assert(rest[0] == items_view[i as int]);
            assert(rest.drop_first() =~= items_view.skip(i + 1 as int));
            assert(item_name@ == items_view[i as int].name);
            reveal_strlit("Deleting Resource ");
            reveal_strlit("Deleted Resource ");
            reveal_strlit("Skipping Resource ");
            reveal_strlit(" [NOT FOUND]");
        }
        let ghost base = msgs@.map_values(|m: StateStream| m@);
        let existed = store.inspect_resource(item_name.as_str()).is_ok();
        proof {
            assert(existed == cur_keys.contains(item_name@)) by {
                if crate::store::has_resource(store@.resources, item_name@) {
                    let w = choose|w: int|
                        0 <= w < store@.resources.len()
                            && (#[trigger] store@.resources[w]).key == item_name@;
                    assert(cur_keys.contains(item_name@));
                }
                if cur_keys.contains(item_name@) {
                    assert(crate::store::has_resource(store@.resources, item_name@));
                }
            }
        }
        if existed {
            msgs.push(
                StateStream::Msg(label_msg("Deleting Resource ", item_name.as_str())),
            );
            let ghost pre_resources = store@.resources;
            let dr = store.delete_resource(item_name.as_str());
            proof {
                assert(dr is Ok);
                crate::store::lemma_resource_keys_filter(pre_resources, item_name@);
            }
            msgs.push(StateStream::Msg(label_msg("Deleted Resource ", item_name.as_str())));
            let ghost events_before = events@.map_values(|e: Event| e@);
            events.push(
                Event {
                    kind: crate::events::EventObjectKind::Resource,
                    action: crate::events::NativeEventAction::Deleted,
                    key: item_name,
                },
            );
            proof {
                assert(msgs@.map_values(|m: StateStream| m@) =~= base + seq![
                    StateStreamView::Msg("Deleting Resource "@ + items_view[i as int].name),
                    StateStreamView::Msg("Deleted Resource "@ + items_view[i as int].name),
                ]);
                assert(events@.map_values(|e: Event| e@) =~= events_before.push(
                    EventView {
                        kind: crate::events::EventObjectKind::Resource,
                        action: crate::events::NativeEventAction::Deleted,
                        key: items_view[i as int].name,
                    },
                ));
            }
        } else {
            let mut skip_msg = String::from_str("Skipping Resource ");
            skip_msg.append(item_name.as_str());
            skip_msg.append(" [NOT FOUND]");
            msgs.push(StateStream::Msg(skip_msg));
            proof {
                assert(msgs@.map_values(|m: StateStream| m@) =~= base + seq![
                    StateStreamView::Msg(
                        "Skipping Resource "@ + items_view[i as int].name + " [NOT FOUND]"@,
                    ),
                ]);
            }
        }
        proof {
            let name_v = items_view[i as int].name;
            if cur_keys.contains(name_v) {
                assert(revert_resource_msgs(cur_keys, rest) == seq![
                    StateStreamView::Msg("Deleting Resource "@ + rest[0].name),
                    StateStreamView::Msg("Deleted Resource "@ + rest[0].name),
                ] + revert_resource_msgs(cur_keys.remove(name_v), rest.drop_first()));
                assert(revert_resource_events(cur_keys, rest) == seq![
                    EventView {
                        kind: crate::events::EventObjectKind::Resource,
                        action: crate::events::NativeEventAction::Deleted,
                        key: name_v,
                    },
                ] + revert_resource_events(cur_keys.remove(name_v), rest.drop_first()));
                assert(crate::store::resource_key_set(store@.resources) =~= cur_keys.remove(
                    name_v,
                ));
            } else {
                assert(revert_resource_msgs(cur_keys, rest) == seq![
                    StateStreamView::Msg(
                        "Skipping Resource "@ + rest[0].name + " [NOT FOUND]"@,
                    ),
                ] + revert_resource_msgs(cur_keys, rest.drop_first()));
                assert(revert_resource_events(cur_keys, rest) == revert_resource_events(
                    cur_keys,
                    rest.drop_first(),
                ));
            }
            assert(seq![
                StateStreamView::Msg(spec_msg_deleting_resources(items_view.len())),
            ] + revert_resource_msgs(old_keys, items_view) =~= msgs@.map_values(
                |m: StateStream| m@,
            ) + revert_resource_msgs(
                crate::store::resource_key_set(store@.resources),
                items_view.skip(i + 1 as int),
            ));
            assert(revert_resource_events(old_keys, items_view) =~= events@.map_values(
                |e: Event| e@,
            ) + revert_resource_events(
                crate::store::resource_key_set(store@.resources),
                items_view.skip(i + 1 as int),
            ));
            lemma_resource_doc_keys_take_succ(items_view, i as int);
            assert(crate::store::resource_key_set(store@.resources) =~= old_keys.difference(
                resource_doc_keys(items_view.take(i + 1 as int)),
            ));
        }
        i += 1;
    }
    proof {
        assert(items_view.skip(items@.len() as int) =~= Seq::<ResourcePartialView>::empty());
        assert(revert_resource_msgs(
            crate::store::resource_key_set(store@.resources),
            Seq::<ResourcePartialView>::empty(),
        ) =~= Seq::<StateStreamView>::empty());
        assert(revert_resource_events(
            crate::store::resource_key_set(store@.resources),
            Seq::<ResourcePartialView>::empty(),
        ) =~= Seq::<EventView>::empty());
        assert(msgs@.map_values(|m: StateStream| m@) =~= seq![
            StateStreamView::Msg(spec_msg_deleting_resources(items_view.len())),
        ] + revert_resource_msgs(old_keys, items_view));
        assert(events@.map_values(|e: Event| e@) =~= revert_resource_events(
            old_keys,
            items_view,
        ));
        assert(items_view.take(items@.len() as int) =~= items_view);
    }
    (msgs, events)
}

/// The namespace a document works against: the named one, or the reserved
/// default.
pub open spec fn spec_doc_namespace(ns: Option<Seq<char>>) -> Seq<char> {
    match ns {
        Some(n) => n,
        None => "global"@,
    }
}

/// The effect a document has on the namespace table: a named namespace is
/// created at the instant when absent and reused untouched when present;
/// an unnamed one leaves the table alone.
pub open spec fn spec_namespace_effect(
    before: Seq<crate::models::NamespaceDbView>,
    after: Seq<crate::models::NamespaceDbView>,
    doc_ns: Option<Seq<char>>,
    now: i64,
) -> bool {
    match doc_ns {
        Some(n) => crate::store::has_namespace(after, n) && (crate::store::has_namespace(
            before,
            n,
        ) ==> after == before) && (!crate::store::has_namespace(before, n) ==> after
            == before.push(crate::models::NamespaceDbView { name: n, created_at: now })),
        None => after == before,
    }
}

/// The namespace a document works against.
fn doc_namespace(ns: &Option<String>) -> (r: String)
    ensures
        r@ == spec_doc_namespace(opt_str_view(*ns)),
{
    match ns {
        Some(n) => n.clone(),
        None => String::from_str("global"),
    }
}

/// Apply a parsed state document: the namespace it names is created when
/// missing and reused untouched otherwise, then its constituent lists are
/// applied in the deterministic order, resources before cargoes, each step
/// reported on the returned progress stream.  Applying the same document
/// twice leaves the same live keys, since the key sets below are unions
/// and the namespace row is reused.
pub fn apply_state(store: &mut Store, data: &StateData, version: &str, now: i64) -> (r: (
    Vec<StateStream>,
    Vec<Event>,
))
    requires
        old(store)@.inv(),
    ensures
        final(store)@.inv(),
        final(store)@.vms == old(store)@.vms,
        final(store)@.secrets == old(store)@.secrets,
        final(store)@.nodes == old(store)@.nodes,
        data is Deployment ==> r.0@.map_values(|m: StateStream| m@) == (
        match data->Deployment_0.resources {
            Some(res) => apply_resource_msgs(res@.map_values(|x: ResourcePartial| x@)),
            None => Seq::<StateStreamView>::empty(),
        }) + (match data->Deployment_0.cargoes {
            Some(cs) => apply_cargo_msgs(
                old(store)@.vms,
                spec_doc_namespace(opt_str_view(data->Deployment_0.namespace)),
                cs@.map_values(|c: CargoSpecPartial| c@),
            ),
            None => Seq::<StateStreamView>::empty(),
        }),
        data is Deployment ==> cargo_key_set(final(store)@.cargoes) == cargo_key_set(
            old(store)@.cargoes,
        ).union(
            match data->Deployment_0.cargoes {
                Some(cs) => ok_cargo_doc_keys(
                    old(store)@.vms,
                    spec_doc_namespace(opt_str_view(data->Deployment_0.namespace)),
                    cs@.map_values(|c: CargoSpecPartial| c@),
                ),
                None => Set::<Seq<char>>::empty(),
            },
        ),
        data is Deployment ==> crate::store::resource_key_set(final(store)@.resources)
            == crate::store::resource_key_set(old(store)@.resources).union(
            match data->Deployment_0.resources {
                Some(res) => resource_doc_keys(res@.map_values(|x: ResourcePartial| x@)),
                None => Set::<Seq<char>>::empty(),
            },
        ),
        data is Cargo ==> r.0@.map_values(|m: StateStream| m@) == apply_cargo_msgs(
            old(store)@.vms,
            spec_doc_namespace(opt_str_view(data->Cargo_0.namespace)),
            data->Cargo_0.cargoes@.map_values(|c: CargoSpecPartial| c@),
        ) && cargo_key_set(final(store)@.cargoes) == cargo_key_set(
            old(store)@.cargoes,
        ).union(
            ok_cargo_doc_keys(
                old(store)@.vms,
                spec_doc_namespace(opt_str_view(data->Cargo_0.namespace)),
                data->Cargo_0.cargoes@.map_values(|c: CargoSpecPartial| c@),
            ),
        ) && final(store)@.resources == old(store)@.resources,
        data is Resource ==> r.0@.map_values(|m: StateStream| m@) == apply_resource_msgs(
            data->Resource_0.resources@.map_values(|x: ResourcePartial| x@),
        ) && crate::store::resource_key_set(final(store)@.resources)
            == crate::store::resource_key_set(old(store)@.resources).union(
            resource_doc_keys(data->Resource_0.resources@.map_values(|x: ResourcePartial| x@)),
        ) && final(store)@.cargoes == old(store)@.cargoes && final(store)@.statuses == old(store)@.statuses,
        data is Deployment ==> spec_namespace_effect(
            old(store)@.namespaces,
            final(store)@.namespaces,
            opt_str_view(data->Deployment_0.namespace),
            now,
        ),
        data is Cargo ==> spec_namespace_effect(
            old(store)@.namespaces,
            final(store)@.namespaces,
            opt_str_view(data->Cargo_0.namespace),
            now,
        ),
        data is Resource ==> final(store)@.namespaces == old(store)@.namespaces,
        data is Deployment ==> r.1@.map_values(|e: Event| e@) == (
        match data->Deployment_0.resources {
            Some(res) => apply_resource_events(res@.map_values(|x: ResourcePartial| x@)),
            None => Seq::<EventView>::empty(),
        }) + (match data->Deployment_0.cargoes {
            Some(cs) => apply_cargo_events(
                old(store)@.vms,
                cargo_key_set(old(store)@.cargoes),
                active_key_set(old(store)@.statuses),
                spec_doc_namespace(opt_str_view(data->Deployment_0.namespace)),
                cs@.map_values(|c: CargoSpecPartial| c@),
            ),
            None => Seq::<EventView>::empty(),
        }),
        data is Cargo ==> r.1@.map_values(|e: Event| e@) == apply_cargo_events(
            old(store)@.vms,
            cargo_key_set(old(store)@.cargoes),
            active_key_set(old(store)@.statuses),
            spec_doc_namespace(opt_str_view(data->Cargo_0.namespace)),
            data->Cargo_0.cargoes@.map_values(|c: CargoSpecPartial| c@),
        ),
        data is Resource ==> r.1@.map_values(|e: Event| e@) == apply_resource_events(
            data->Resource_0.resources@.map_values(|x: ResourcePartial| x@),
        ),
        final(store)@.specs.len() >= old(store)@.specs.len(),
        forall|i: int|
            0 <= i < old(store)@.specs.len() ==> #[trigger] final(store)@.specs[i] == old(store)@.specs[i],
{
    match data {
        StateData::Deployment(doc) => {
            let ns = doc_namespace(&doc.namespace);
            if doc.namespace.is_some() {
                let _ = store.register_namespace(ns.as_str(), now);
            }
            let mut msgs: Vec<StateStream> = Vec::new();
            let mut events: Vec<Event> = Vec::new();
            let ghost mid0 = store@;
            if let Some(res) = &doc.resources {
                let (mut m, mut e) = apply_resources(store, res, version, now);
                msgs.append(&mut m);
                events.append(&mut e);
            }
            proof {
                assert(cargo_key_set(store@.cargoes) =~= cargo_key_set(
                    old(store)@.cargoes,
                ));
            }
            if let Some(cs) = &doc.cargoes {
                let (mut m, mut e) = apply_cargoes(store, ns.as_str(), cs, version, now);
                msgs.append(&mut m);
                events.append(&mut e);
            }
            proof {
                assert(store@.namespaces == mid0.namespaces);
                match &doc.namespace {
                    Some(n) => {
                        assert(ns@ == n@);
                        if crate::store::has_namespace(old(store)@.namespaces, n@) {
                            let w = choose|w: int|
                                0 <= w < old(store)@.namespaces.len() && (#[trigger] old(store)@.namespaces[w]).name == n@;
                            assert(store@.namespaces[w].name == n@);
                        } else {
                            assert(store@.namespaces =~= old(store)@.namespaces.push(
                                crate::models::NamespaceDbView { name: n@, created_at: now },
                            ));
                            assert(store@.namespaces[store@.namespaces.len() - 1].name
                                == n@);
                        }
                        assert(crate::store::has_namespace(store@.namespaces, n@));
                    },
                    None => {},
                }
                assert(active_key_set(mid0.statuses) =~= active_key_set(
                    old(store)@.statuses,
                ));
                let res_events = match &doc.resources {
                    Some(res) => apply_resource_events(
                        res@.map_values(|x: ResourcePartial| x@),
                    ),
                    None => Seq::<EventView>::empty(),
                };
                let cargo_events = match &doc.cargoes {
                    Some(cs) => apply_cargo_events(
                        old(store)@.vms,
                        cargo_key_set(old(store)@.cargoes),
                        active_key_set(old(store)@.statuses),
                        spec_doc_namespace(opt_str_view(doc.namespace)),
                        cs@.map_values(|c: CargoSpecPartial| c@),
                    ),
                    None => Seq::<EventView>::empty(),
                };
                assert(events@.map_values(|e: Event| e@) =~= res_events + cargo_events);
                let res_msgs = match &doc.resources {
                    Some(res) => apply_resource_msgs(
                        res@.map_values(|x: ResourcePartial| x@),
                    ),
                    None => Seq::<StateStreamView>::empty(),
                };
                let cargo_msgs = match &doc.cargoes {
                    Some(cs) => apply_cargo_msgs(
                        old(store)@.vms,
                        spec_doc_namespace(opt_str_view(doc.namespace)),
                        cs@.map_values(|c: CargoSpecPartial| c@),
                    ),
                    None => Seq::<StateStreamView>::empty(),
                };
                assert(msgs@.map_values(|m: StateStream| m@) =~= res_msgs + cargo_msgs);
                assert(cargo_key_set(store@.cargoes) =~= cargo_key_set(
                    old(store)@.cargoes,
                ).union(
                    match &doc.cargoes {
                        Some(cs) => ok_cargo_doc_keys(
                            old(store)@.vms,
                            spec_doc_namespace(opt_str_view(doc.namespace)),
                            cs@.map_values(|c: CargoSpecPartial| c@),
                        ),
                        None => Set::<Seq<char>>::empty(),
                    },
                ));
                assert(crate::store::resource_key_set(store@.resources)
                    =~= crate::store::resource_key_set(old(store)@.resources).union(
                    match &doc.resources {
                        Some(res) => resource_doc_keys(
                            res@.map_values(|x: ResourcePartial| x@),
                        ),
                        None => Set::<Seq<char>>::empty(),
                    },
                ));
            }
            (msgs, events)
        },
        StateData::Cargo(doc) => {
            let ns = doc_namespace(&doc.namespace);
            if doc.namespace.is_some() {
                let _ = store.register_namespace(ns.as_str(), now);
            }
            let ghost mid = store@;
            let r = apply_cargoes(store, ns.as_str(), &doc.cargoes, version, now);
            proof {
                assert(active_key_set(mid.statuses) =~= active_key_set(
                    old(store)@.statuses,
                ));
                assert(store@.namespaces == mid.namespaces);
                match &doc.namespace {
                    Some(n) => {
                        assert(ns@ == n@);
                        if crate::store::has_namespace(old(store)@.namespaces, n@) {
                            let w = choose|w: int|
                                0 <= w < old(store)@.namespaces.len() && (#[trigger] old(store)@.namespaces[w]).name == n@;
                            assert(store@.namespaces[w].name == n@);
                        } else {
                            assert(store@.namespaces =~= old(store)@.namespaces.push(
                                crate::models::NamespaceDbView { name: n@, created_at: now },
                            ));
                            assert(store@.namespaces[store@.namespaces.len() - 1].name
                                == n@);
                        }
                        assert(crate::store::has_namespace(store@.namespaces, n@));
                    },
                    None => {},
                }
            }
            r
        },
        StateData::Resource(doc) => {
            apply_resources(store, &doc.resources, version, now)
        },
    }
}

/// Revert a parsed state document: its constituent lists are reverted in
/// the order opposite to application, cargoes before resources, each step
/// reported on the returned progress stream.  Every key the document
/// deployed is removed; keys it does not name keep their rows.
pub fn revert_state(store: &mut Store, data: &StateData) -> (r: (Vec<StateStream>, Vec<Event>))
    requires
        old(store)@.inv(),
    ensures
        final(store)@.inv(),
        final(store)@.vms == old(store)@.vms,
        final(store)@.secrets == old(store)@.secrets,
        final(store)@.namespaces == old(store)@.namespaces,
        final(store)@.nodes == old(store)@.nodes,
        data is Deployment ==> r.0@.map_values(|m: StateStream| m@) == (
        match data->Deployment_0.cargoes {
            Some(cs) => seq![
                StateStreamView::Msg(
                    spec_msg_deleting_cargoes(
                        cs@.len() as nat,
                        spec_doc_namespace(opt_str_view(data->Deployment_0.namespace)),
                    ),
                ),
            ] + revert_cargo_msgs(
                cargo_key_set(old(store)@.cargoes),
                spec_doc_namespace(opt_str_view(data->Deployment_0.namespace)),
                cs@.map_values(|c: CargoSpecPartial| c@),
            ),
            None => Seq::<StateStreamView>::empty(),
        }) + (match data->Deployment_0.resources {
            Some(res) => seq![
                StateStreamView::Msg(spec_msg_deleting_resources(res@.len() as nat)),
            ] + revert_resource_msgs(
                crate::store::resource_key_set(old(store)@.resources),
                res@.map_values(|x: ResourcePartial| x@),
            ),
            None => Seq::<StateStreamView>::empty(),
        }),
        data is Deployment ==> cargo_key_set(final(store)@.cargoes) == cargo_key_set(
            old(store)@.cargoes,
        ).difference(
            match data->Deployment_0.cargoes {
                Some(cs) => cargo_doc_keys(
                    spec_doc_namespace(opt_str_view(data->Deployment_0.namespace)),
                    cs@.map_values(|c: CargoSpecPartial| c@),
                ),
                None => Set::<Seq<char>>::empty(),
            },
        ),
        data is Deployment ==> crate::store::resource_key_set(final(store)@.resources)
            == crate::store::resource_key_set(old(store)@.resources).difference(
            match data->Deployment_0.resources {
                Some(res) => resource_doc_keys(res@.map_values(|x: ResourcePartial| x@)),
                None => Set::<Seq<char>>::empty(),
            },
        ),
        data is Cargo ==> cargo_key_set(final(store)@.cargoes) == cargo_key_set(
            old(store)@.cargoes,
        ).difference(
            cargo_doc_keys(
                spec_doc_namespace(opt_str_view(data->Cargo_0.namespace)),
                data->Cargo_0.cargoes@.map_values(|c: CargoSpecPartial| c@),
            ),
        ) && final(store)@.resources == old(store)@.resources,
        data is Resource ==> crate::store::resource_key_set(final(store)@.resources)
            == crate::store::resource_key_set(old(store)@.resources).difference(
            resource_doc_keys(data->Resource_0.resources@.map_values(|x: ResourcePartial| x@)),
        ) && final(store)@.cargoes == old(store)@.cargoes,
        data is Deployment ==> r.1@.map_values(|e: Event| e@) == (
        match data->Deployment_0.cargoes {
            Some(cs) => revert_cargo_events(
                cargo_key_set(old(store)@.cargoes),
                spec_doc_namespace(opt_str_view(data->Deployment_0.namespace)),
                cs@.map_values(|c: CargoSpecPartial| c@),
            ),
            None => Seq::<EventView>::empty(),
        }) + (match data->Deployment_0.resources {
            Some(res) => revert_resource_events(
                crate::store::resource_key_set(old(store)@.resources),
                res@.map_values(|x: ResourcePartial| x@),
            ),
            None => Seq::<EventView>::empty(),
        }),
        data is Cargo ==> r.1@.map_values(|e: Event| e@) == revert_cargo_events(
            cargo_key_set(old(store)@.cargoes),
            spec_doc_namespace(opt_str_view(data->Cargo_0.namespace)),
            data->Cargo_0.cargoes@.map_values(|c: CargoSpecPartial| c@),
        ),
        data is Resource ==> r.1@.map_values(|e: Event| e@) == revert_resource_events(
            crate::store::resource_key_set(old(store)@.resources),
            data->Resource_0.resources@.map_values(|x: ResourcePartial| x@),
        ),
{
    match data {
        StateData::Deployment(doc) => {
            let ns = doc_namespace(&doc.namespace);
            let mut msgs: Vec<StateStream> = Vec::new();
            let mut events: Vec<Event> = Vec::new();
            if let Some(cs) = &doc.cargoes {
                let (mut m, mut e) = revert_cargoes(store, ns.as_str(), cs);
                msgs.append(&mut m);
                events.append(&mut e);
            }
            if let Some(res) = &doc.resources {
                let (mut m, mut e) = revert_resources(store, res);
                msgs.append(&mut m);
                events.append(&mut e);
            }
            proof {
                let cargo_events = match &doc.cargoes {
                    Some(cs) => revert_cargo_events(
                        cargo_key_set(old(store)@.cargoes),
                        spec_doc_namespace(opt_str_view(doc.namespace)),
                        cs@.map_values(|c: CargoSpecPartial| c@),
                    ),
                    None => Seq::<EventView>::empty(),
                };
                let res_events = match &doc.resources {
                    Some(res) => revert_resource_events(
                        crate::store::resource_key_set(old(store)@.resources),
                        res@.map_values(|x: ResourcePartial| x@),
                    ),
                    None => Seq::<EventView>::empty(),
                };
                assert(events@.map_values(|e: Event| e@) =~= cargo_events + res_events);
                let cargo_msgs = match &doc.cargoes {
                    Some(cs) => seq![
                        StateStreamView::Msg(
                            spec_msg_deleting_cargoes(
                                cs@.len() as nat,
                                spec_doc_namespace(opt_str_view(doc.namespace)),
                            ),
                        ),
                    ] + revert_cargo_msgs(
                        cargo_key_set(old(store)@.cargoes),
                        spec_doc_namespace(opt_str_view(doc.namespace)),
                        cs@.map_values(|c: CargoSpecPartial| c@),
                    ),
                    None => Seq::<StateStreamView>::empty(),
                };
                let res_msgs = match &doc.resources {
                    Some(res) => seq![
                        StateStreamView::Msg(
                            spec_msg_deleting_resources(res@.len() as nat),
                        ),
                    ] + revert_resource_msgs(
                        crate::store::resource_key_set(old(store)@.resources),
                        res@.map_values(|x: ResourcePartial| x@),
                    ),
                    None => Seq::<StateStreamView>::empty(),
                };
                assert(msgs@.map_values(|m: StateStream| m@) =~= cargo_msgs + res_msgs);
                assert(cargo_key_set(store@.cargoes) =~= cargo_key_set(
                    old(store)@.cargoes,
                ).difference(
                    match &doc.cargoes {
                        Some(cs) => cargo_doc_keys(
                            spec_doc_namespace(opt_str_view(doc.namespace)),
                            cs@.map_values(|c: CargoSpecPartial| c@),
                        ),
                        None => Set::<Seq<char>>::empty(),
                    },
                ));
                assert(crate::store::resource_key_set(store@.resources)
                    =~= crate::store::resource_key_set(old(store)@.resources).difference(
                    match &doc.resources {
                        Some(res) => resource_doc_keys(
                            res@.map_values(|x: ResourcePartial| x@),
                        ),
                        None => Set::<Seq<char>>::empty(),
                    },
                ));
            }
            (msgs, events)
        },
        StateData::Cargo(doc) => {
            let ns = doc_namespace(&doc.namespace);
            revert_cargoes(store, ns.as_str(), &doc.cargoes)
        },
        StateData::Resource(doc) => {
            revert_resources(store, &doc.resources)
        },
    }
}

} // verus!
