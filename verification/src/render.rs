//! The output lines of each subcommand, as values.
//!
//! Every subcommand renders what it fetched into a list of lines; the binary
//! prints them one per line and does nothing else to them. A string-valued
//! attribute renders as a JSON string literal, any other attribute value as
//! the text it was carried with.

use vstd::prelude::*;
use vstd::string::StringExecFns;
use crate::domains::{filter_scenes, scene_pred};
use crate::records::{friendly_name_of, AttrValue, ServiceDomainDto, ServiceDto, StateDto};
use crate::text::{dec_rep, json_quote, json_quote_str, u64_to_dec};

verus! {

/// The one-line summary of an entity: identifier, friendly name when there
/// is one, and state.
pub open spec fn state_line(e: StateDto) -> Seq<char> {
    match friendly_name_of(e) {
        Some(n) => e.entity_id@ + " - "@ + n + " ("@ + e.state@ + ")"@,
        None => e.entity_id@ + " ("@ + e.state@ + ")"@,
    }
}

/// How one attribute value renders: a string as a JSON string literal, any
/// other value as the text it was carried with.
pub open spec fn attr_value_text(v: AttrValue) -> Seq<char> {
    match v {
        AttrValue::Text(t) => json_quote(t@),
        AttrValue::Other(o) => o@,
    }
}

/// One attribute line of `entity show`.
pub open spec fn attr_line(key: Seq<char>, v: AttrValue) -> Seq<char> {
    "  - "@ + key + ": "@ + attr_value_text(v)
}

/// The attribute lines of `entity show`, in attribute order.
pub open spec fn attr_lines(attrs: Seq<(String, AttrValue)>) -> Seq<Seq<char>> {
    attrs.map_values(|p: (String, AttrValue)| attr_line(p.0@, p.1))
}

/// The lines of `entity list`: one summary line per entity.
pub open spec fn entity_list_lines(states: Seq<StateDto>) -> Seq<Seq<char>> {
    states.map_values(|e: StateDto| state_line(e))
}

/// The lines of `entity show`: the summary line, then every attribute.
pub open spec fn entity_show_lines(e: StateDto) -> Seq<Seq<char>> {
    seq![state_line(e)] + attr_lines(e.attributes@)
}

/// One service line of `service list`.
pub open spec fn service_line(id: Seq<char>, s: ServiceDto) -> Seq<char> {
    match s.description {
        Some(d) => "  - '"@ + id + "' - "@ + s.name@ + ": "@ + d@,
        None => "  - '"@ + id + "' - "@ + s.name@,
    }
}

/// The service lines of one domain, in service order.
pub open spec fn service_lines(svcs: Seq<(String, ServiceDto)>) -> Seq<Seq<char>> {
    svcs.map_values(|p: (String, ServiceDto)| service_line(p.0@, p.1))
}

/// The lines of one domain in `service list`: a blank line, the domain
/// header, then every service.
pub open spec fn domain_block(d: ServiceDomainDto) -> Seq<Seq<char>> {
    seq![Seq::<char>::empty(), "Domain: "@ + d.domain@] + service_lines(d.services@)
}

/// The lines of `service list`: one block per domain, in order.
pub open spec fn service_list_lines(ds: Seq<ServiceDomainDto>) -> Seq<Seq<char>>
    decreases ds.len(),
{
    if ds.len() == 0 {
        Seq::empty()
    } else {
        service_list_lines(ds.drop_last()) + domain_block(ds.last())
    }
}

/// The header line of one scene in `scene list`.
pub open spec fn scene_header(e: StateDto) -> Seq<char> {
    match friendly_name_of(e) {
        Some(n) => "Scene: "@ + json_quote(n) + " ("@ + json_quote(e.entity_id@) + "). State: "@
            + json_quote(e.state@),
        None => "Scene: "@ + json_quote(e.entity_id@) + ". State: "@ + json_quote(e.state@),
    }
}

/// One attribute line of `scene list`.
pub open spec fn scene_attr_line(key: Seq<char>, v: AttrValue) -> Seq<char> {
    "   "@ + key + ": "@ + attr_value_text(v)
}

/// The attribute lines of one scene, in attribute order.
pub open spec fn scene_attr_lines(attrs: Seq<(String, AttrValue)>) -> Seq<Seq<char>> {
    attrs.map_values(|p: (String, AttrValue)| scene_attr_line(p.0@, p.1))
}

/// The lines of one scene in `scene list`: header, attribute heading, every
/// attribute, and a trailing blank line.
pub open spec fn scene_block(e: StateDto) -> Seq<Seq<char>> {
    seq![scene_header(e), " - Attributes:"@] + scene_attr_lines(e.attributes@) + seq![
        Seq::<char>::empty(),
    ]
}

/// The scene blocks of `scene list`, in order.
pub open spec fn scene_blocks(scenes: Seq<StateDto>) -> Seq<Seq<char>>
    decreases scenes.len(),
{
    if scenes.len() == 0 {
        Seq::empty()
    } else {
        scene_blocks(scenes.drop_last()) + scene_block(scenes.last())
    }
}

/// The count line of `scene list`.
pub open spec fn count_line(n: nat) -> Seq<char> {
    dec_rep(n) + " scenes found:"@
}

/// The lines of `scene list`: the count of scenes, then one block per scene,
/// where the scenes are exactly the entities of the `scene` domain.
pub open spec fn scene_list_lines(states: Seq<StateDto>) -> Seq<Seq<char>> {
    seq![count_line(states.filter(scene_pred()).len())] + scene_blocks(
        states.filter(scene_pred()),
    )
}

/// Renders the one-line summary of an entity, exactly as `state_line`
/// describes it.
pub fn render_state_line(e: &StateDto) -> (r: String)
    ensures
        r@ == state_line(*e),
{
    let mut s = String::new();
    s.append(e.entity_id.as_str());
    match e.friendly_name() {
        Some(name) => {
            s.append(" - ");
            s.append(name.as_str());
            s.append(" (");
            s.append(e.state.as_str());
            s.append(")");
            proof {
                assert(s@ =~= state_line(*e));
            }
        },
        None => {
            s.append(" (");
            s.append(e.state.as_str());
            s.append(")");
            proof {
                assert(s@ =~= state_line(*e));
            }
        },
    }
    s
}

/// Renders one attribute value, exactly as `attr_value_text` describes it.
pub fn render_attr_value(v: &AttrValue) -> (r: String)
    ensures
        r@ == attr_value_text(*v),
{
    match v {
        AttrValue::Text(t) => json_quote_str(t.as_str()),
        AttrValue::Other(o) => o.clone(),
    }
}

/// Renders the lines of `entity list`.
pub fn render_entity_list(states: &Vec<StateDto>) -> (r: Vec<String>)
    ensures
        r.deep_view() == entity_list_lines(states@),
{
    let mut out: Vec<String> = Vec::new();
    let n = states.len();
    let mut i: usize = 0;
    proof {
        assert(out.deep_view() =~= entity_list_lines(states@.take(0)));
    }
    while i < n
        invariant
            i <= n,
            n == states@.len(),
            out.deep_view() == entity_list_lines(states@.take(i as int)),
        decreases n - i,
    {
        let ghost prev = out.deep_view();
        let line = render_state_line(&states[i]);
        out.push(line);
        proof {
            assert(out.deep_view() =~= prev.push(state_line(states@[i as int])));
            assert(out.deep_view() =~= entity_list_lines(states@.take(i as int + 1)));
        }
        i = i + 1;
    }
    proof {
        assert(states@.take(n as int) =~= states@);
    }
    out
}

/// Renders the lines of `entity show`.
pub fn render_entity_show(e: &StateDto) -> (r: Vec<String>)
    ensures
        r.deep_view() == entity_show_lines(*e),
{
    let mut out: Vec<String> = Vec::new();
    out.push(render_state_line(e));
    let n = e.attributes.len();
    let mut i: usize = 0;
    proof {
        assert(out.deep_view() =~= seq![state_line(*e)] + attr_lines(e.attributes@.take(0)));
    }
    while i < n
        invariant
            i <= n,
            n == e.attributes@.len(),
            out.deep_view() == seq![state_line(*e)] + attr_lines(e.attributes@.take(i as int)),
        decreases n - i,
    {
        let ghost prev = out.deep_view();
        let pair = &e.attributes[i];
        let mut line = String::from_str("  - ");
        line.append(pair.0.as_str());
        line.append(": ");
        let v = render_attr_value(&pair.1);
        line.append(v.as_str());
        proof {
            assert(line@ =~= attr_line(pair.0@, pair.1));
        }
        out.push(line);
        proof {
            assert(out.deep_view() =~= prev.push(attr_line(
                e.attributes@[i as int].0@,
                e.attributes@[i as int].1,
            )));
            assert(out.deep_view() =~= seq![state_line(*e)] + attr_lines(
                e.attributes@.take(i as int + 1),
            ));
        }
        i = i + 1;
    }
    proof {
        assert(e.attributes@.take(n as int) =~= e.attributes@);
    }
    out
}

/// Renders the lines of `service list`.
pub fn render_service_list(domains: &Vec<ServiceDomainDto>) -> (r: Vec<String>)
    ensures
        r.deep_view() == service_list_lines(domains@),
{
    let mut out: Vec<String> = Vec::new();
    let n = domains.len();
    let mut i: usize = 0;
    proof {
        assert(out.deep_view() =~= service_list_lines(domains@.take(0)));
    }
    while i < n
        invariant
            i <= n,
            n == domains@.len(),
            out.deep_view() == service_list_lines(domains@.take(i as int)),
        decreases n - i,
    {
        let d = &domains[i];
        let ghost at_domain = out.deep_view();
        out.push(String::new());
        let mut header = String::from_str("Domain: ");
        header.append(d.domain.as_str());
        out.push(header);
        let m = d.services.len();
        let mut j: usize = 0;
        proof {
            assert(out.deep_view() =~= at_domain + seq![
                Seq::<char>::empty(),
                "Domain: "@ + d.domain@,
            ] + service_lines(d.services@.take(0)));
        }
        while j < m
            invariant
                j <= m,
                m == d.services@.len(),
                i < n,
                n == domains@.len(),
                d == &domains@[i as int],
                out.deep_view() == at_domain + seq![
                    Seq::<char>::empty(),
                    "Domain: "@ + d.domain@,
                ] + service_lines(d.services@.take(j as int)),
            decreases m - j,
        {
            let ghost prev = out.deep_view();
            let pair = &d.services[j];
            let mut line = String::from_str("  - '");
            line.append(pair.0.as_str());
            line.append("' - ");
            line.append(pair.1.name.as_str());
            match &pair.1.description {
                Some(descr) => {
                    line.append(": ");
                    line.append(descr.as_str());
                    proof {
                        assert(line@ =~= service_line(pair.0@, pair.1));
                    }
                },
                None => {
                    proof {
                        assert(line@ =~= service_line(pair.0@, pair.1));
                    }
                },
            }
            out.push(line);
            proof {
                assert(out.deep_view() =~= prev.push(service_line(
                    d.services@[j as int].0@,
                    d.services@[j as int].1,
                )));
                assert(service_lines(d.services@.take(j as int + 1)) =~= service_lines(
                    d.services@.take(j as int),
                ).push(service_line(d.services@[j as int].0@, d.services@[j as int].1)));
                assert(out.deep_view() =~= at_domain + seq![
                    Seq::<char>::empty(),
                    "Domain: "@ + d.domain@,
                ] + service_lines(d.services@.take(j as int + 1)));
            }
            j = j + 1;
        }
        proof {
            assert(d.services@.take(m as int) =~= d.services@);
            assert(out.deep_view() =~= at_domain + domain_block(domains@[i as int]));
            assert(domains@.take(i as int + 1).drop_last() =~= domains@.take(i as int));
            assert(domains@.take(i as int + 1).last() == domains@[i as int]);
            assert(out.deep_view() =~= service_list_lines(domains@.take(i as int + 1)));
        }
        i = i + 1;
    }
    proof {
        assert(domains@.take(n as int) =~= domains@);
    }
    out
}

/// Renders the header line of one scene, exactly as `scene_header` describes
/// it.
fn render_scene_header(e: &StateDto) -> (r: String)
    ensures
        r@ == scene_header(*e),
{
    let mut s = String::from_str("Scene: ");
    match e.friendly_name() {
        Some(name) => {
            let q = json_quote_str(name.as_str());
            s.append(q.as_str());
            s.append(" (");
            let q = json_quote_str(e.entity_id.as_str());
            s.append(q.as_str());
            s.append("). State: ");
            let q = json_quote_str(e.state.as_str());
            s.append(q.as_str());
            proof {
                assert(s@ =~= scene_header(*e));
            }
        },
        None => {
            let q = json_quote_str(e.entity_id.as_str());
            s.append(q.as_str());
            s.append(". State: ");
            let q = json_quote_str(e.state.as_str());
            s.append(q.as_str());
            proof {
                assert(s@ =~= scene_header(*e));
            }
        },
    }
    s
}

/// Renders the lines of `scene list` from the full state listing: the scenes
/// are filtered out, counted, and rendered block by block.
pub fn render_scene_list(states: Vec<StateDto>) -> (r: Vec<String>)
    ensures
        r.deep_view() == scene_list_lines(states@),
{
    let ghost orig = states@;
    let scenes = filter_scenes(states);
    let mut out: Vec<String> = Vec::new();
    let mut count = u64_to_dec(scenes.len() as u64);
    count.append(" scenes found:");
    proof {
        assert(count@ =~= count_line(orig.filter(scene_pred()).len()));
    }
    out.push(count);
    let n = scenes.len();
    let mut i: usize = 0;
    proof {
        assert(out.deep_view() =~= seq![count_line(orig.filter(scene_pred()).len())]
            + scene_blocks(scenes@.take(0)));
    }
    while i < n
        invariant
            i <= n,
            n == scenes@.len(),
            scenes@ == orig.filter(scene_pred()),
            out.deep_view() == seq![count_line(orig.filter(scene_pred()).len())] + scene_blocks(
                scenes@.take(i as int),
            ),
        decreases n - i,
    {
        let ghost at_scene = out.deep_view();
        let e = &scenes[i];
        out.push(render_scene_header(e));
        out.push(String::from_str(" - Attributes:"));
        let m = e.attributes.len();
        let mut j: usize = 0;
        proof {
            assert(out.deep_view() =~= at_scene + seq![
                scene_header(scenes@[i as int]),
                " - Attributes:"@,
            ] + scene_attr_lines(e.attributes@.take(0)));
        }
        while j < m
            invariant
                j <= m,
                m == e.attributes@.len(),
                i < n,
                n == scenes@.len(),
                e == &scenes@[i as int],
                out.deep_view() == at_scene + seq![
                    scene_header(scenes@[i as int]),
                    " - Attributes:"@,
                ] + scene_attr_lines(e.attributes@.take(j as int)),
            decreases m - j,
        {
            let ghost prev = out.deep_view();
            let pair = &e.attributes[j];
            let mut line = String::from_str("   ");
            line.append(pair.0.as_str());
            line.append(": ");
            let v = render_attr_value(&pair.1);
            line.append(v.as_str());
            proof {
                assert(line@ =~= scene_attr_line(pair.0@, pair.1));
            }
            out.push(line);
            proof {
                assert(out.deep_view() =~= prev.push(scene_attr_line(
                    e.attributes@[j as int].0@,
                    e.attributes@[j as int].1,
                )));
                assert(scene_attr_lines(e.attributes@.take(j as int + 1)) =~= scene_attr_lines(
                    e.attributes@.take(j as int),
                ).push(scene_attr_line(e.attributes@[j as int].0@, e.attributes@[j as int].1)));
                assert(out.deep_view() =~= at_scene + seq![
                    scene_header(scenes@[i as int]),
                    " - Attributes:"@,
                ] + scene_attr_lines(e.attributes@.take(j as int + 1)));
            }
            j = j + 1;
        }
        let ghost before_blank = out.deep_view();
        out.push(String::new());
        proof {
            assert(e.attributes@.take(m as int) =~= e.attributes@);
            assert(out.deep_view() =~= before_blank.push(Seq::<char>::empty()));
            assert(out.deep_view() =~= at_scene + scene_block(scenes@[i as int]));
            assert(scenes@.take(i as int + 1).drop_last() =~= scenes@.take(i as int));
            assert(scenes@.take(i as int + 1).last() == scenes@[i as int]);
            assert(out.deep_view() =~= seq![count_line(orig.filter(scene_pred()).len())]
                + scene_blocks(scenes@.take(i as int + 1)));
        }
        i = i + 1;
    }
    proof {
        assert(scenes@.take(n as int) =~= scenes@);
        assert(out.deep_view() =~= scene_list_lines(orig));
    }
    out
}

} // verus!
