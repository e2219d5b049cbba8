//! Resolved sensor/device records: an id namespaced as `<domain>.<name>`,
//! a state string, and an ordered attribute map of plain values.
//!
//! Attribute values are the JSON-like kinds the formatter reads: strings,
//! numbers (as fixed-point thousandths), booleans, null, and an opaque
//! marker for nested structures.

use vstd::prelude::*;

use crate::numfmt::{first_dot, Dec};
use crate::strutil::{find_first, spec_trim, str_eq, starts_with_str, trim_str, find_char};

verus! {

/// One attribute value of an entity.
#[derive(Clone)]
pub enum AttrValue {
    Null,
    Bool(bool),
    Num(Dec),
    Text(String),
    Nested,
}

impl AttrValue {
    pub open spec fn wf(&self) -> bool {
        match self {
            AttrValue::Num(d) => d.wf(),
            _ => true,
        }
    }
}

/// One resolved entity, immutable for the duration of a render.
#[derive(Clone)]
pub struct EntityRecord {
    pub id: String,
    pub state: String,
    pub attributes: Vec<(String, AttrValue)>,
}

/// First attribute value stored under `key`, in insertion order.
pub open spec fn spec_attr(attrs: Seq<(String, AttrValue)>, key: Seq<char>) -> Option<AttrValue>
    decreases attrs.len(),
{
    if attrs.len() == 0 {
        None
    } else if attrs[0].0@ == key {
        Some(attrs[0].1)
    } else {
        spec_attr(attrs.drop_first(), key)
    }
}

/// The attribute under `key` when it is a string.
pub open spec fn spec_attr_str(attrs: Seq<(String, AttrValue)>, key: Seq<char>) -> Option<
    Seq<char>,
> {
    match spec_attr(attrs, key) {
        Some(AttrValue::Text(s)) => Some(s@),
        _ => None,
    }
}

/// The attribute under `key` when it is a number.
pub open spec fn spec_attr_num(attrs: Seq<(String, AttrValue)>, key: Seq<char>) -> Option<Dec> {
    match spec_attr(attrs, key) {
        Some(AttrValue::Num(d)) => Some(d),
        _ => None,
    }
}

/// The name shown for an entity: its `friendly_name` attribute when that
/// is a string, else its raw id.
pub open spec fn spec_display_name(e: &EntityRecord) -> Seq<char> {
    match spec_attr_str(e.attributes@, "friendly_name"@) {
        Some(name) => name,
        None => e.id@,
    }
}

/// The domain of an id: the text before the first `'.'`.
pub open spec fn spec_domain(id: Seq<char>) -> Seq<char> {
    id.take(first_dot(id))
}

proof fn lemma_spec_attr_skip(attrs: Seq<(String, AttrValue)>, key: Seq<char>, i: int)
    requires
        0 <= i <= attrs.len(),
        forall|k: int| 0 <= k < i ==> (#[trigger] attrs[k]).0@ != key,
    ensures
        spec_attr(attrs, key) == spec_attr(attrs.skip(i), key),
    decreases i,
{
    if i > 0 {
        assert(attrs[0].0@ != key);
        assert forall|k: int| 0 <= k < i - 1 implies (#[trigger] attrs.drop_first()[k]).0@
            != key by {
            assert(attrs.drop_first()[k] == attrs[k + 1]);
        }
        lemma_spec_attr_skip(attrs.drop_first(), key, i - 1);
        assert(attrs.drop_first().skip(i - 1) =~= attrs.skip(i));
    } else {
        assert(attrs.skip(0) =~= attrs);
    }
}

impl EntityRecord {
    /// Every numeric attribute holds a well-formed fixed-point value.
    pub open spec fn wf(&self) -> bool {
        forall|k: int| 0 <= k < self.attributes@.len() ==> (#[trigger] self.attributes@[k]).1.wf()
    }

    /// Look an attribute up by key, first match in insertion order.
    pub fn get_attr<'a>(&'a self, key: &str) -> (r: Option<&'a AttrValue>)
        ensures
            match r {
                Some(v) => spec_attr(self.attributes@, key@) == Some(*v),
                None => spec_attr(self.attributes@, key@) is None,
            },
    {
        let ghost attrs = self.attributes@;
        let n = self.attributes.len();
        let mut i: usize = 0;
        while i < n
            invariant
                attrs == self.attributes@,
                n == attrs.len(),
                i <= n,
                forall|k: int| 0 <= k < i ==> (#[trigger] attrs[k]).0@ != key@,
            decreases n - i,
        {
            let entry = &self.attributes[i];
            if str_eq(entry.0.as_str(), key) {
                proof {
                    lemma_spec_attr_skip(attrs, key@, i as int);
                    assert(attrs.skip(i as int)[0] == attrs[i as int]);
                }
                return Some(&entry.1);
            }
            i = i + 1;
        }
        proof {
            lemma_spec_attr_skip(attrs, key@, n as int);
        }
        None
    }

    /// The attribute under `key` when it is a string.
    pub fn attr_str<'a>(&'a self, key: &str) -> (r: Option<&'a String>)
        ensures
            match r {
                Some(s) => spec_attr_str(self.attributes@, key@) == Some(s@),
                None => spec_attr_str(self.attributes@, key@) is None,
            },
    {
        match self.get_attr(key) {
            Some(AttrValue::Text(s)) => Some(s),
            _ => None,
        }
    }

    /// The attribute under `key` when it is a number.
    pub fn attr_num(&self, key: &str) -> (r: Option<Dec>)
        requires
            self.wf(),
        ensures
            r == spec_attr_num(self.attributes@, key@),
            r is Some ==> r.unwrap().wf(),
    {
        proof {
            lemma_spec_attr_found_wf(self.attributes@, key@);
        }
        match self.get_attr(key) {
            Some(AttrValue::Num(d)) => Some(*d),
            _ => None,
        }
    }

    /// The name shown for the entity: `friendly_name` or the raw id.
    pub fn display_name<'a>(&'a self) -> (r: &'a String)
        ensures
            r@ == spec_display_name(self),
    {
        match self.attr_str("friendly_name") {
            Some(name) => name,
            None => &self.id,
        }
    }

    /// The domain prefix of the entity id.
    pub fn domain(&self) -> (r: String)
        ensures
            r@ == spec_domain(self.id@),
    {
        let id = self.id.as_str();
        let d = find_char(id, '.');
        proof {
            lemma_find_first_dot_eq(id@);
        }
        let head = id.substring_char(0, d);
        proof {
            assert(head@ =~= spec_domain(self.id@));
        }
        String::from_str(head)
    }
}

/// A found numeric attribute of a well-formed record is well-formed.
pub proof fn lemma_spec_attr_found_wf(attrs: Seq<(String, AttrValue)>, key: Seq<char>)
    requires
        forall|k: int| 0 <= k < attrs.len() ==> (#[trigger] attrs[k]).1.wf(),
    ensures
        match spec_attr(attrs, key) {
            Some(v) => v.wf(),
            None => true,
        },
    decreases attrs.len(),
{
    if attrs.len() > 0 && attrs[0].0@ != key {
        assert forall|k: int| 0 <= k < attrs.drop_first().len() implies (#[trigger]
        attrs.drop_first()[k]).1.wf() by {
            assert(attrs.drop_first()[k] == attrs[k + 1]);
        }
        lemma_spec_attr_found_wf(attrs.drop_first(), key);
    }
}

/// `first_dot` and `find_first` of `'.'` agree.
proof fn lemma_find_first_dot_eq(s: Seq<char>)
    ensures
        find_first(s, '.') == first_dot(s),
        0 <= first_dot(s) <= s.len(),
    decreases s.len(),
{
    if s.len() > 0 && s[0] != '.' {
        lemma_find_first_dot_eq(s.drop_first());
    }
}

/// Whether an entity id names a camera.
pub fn is_camera_entity(id: &str) -> (r: bool)
    ensures
        r == "camera."@.is_prefix_of(id@),
{
    starts_with_str(id, "camera.")
}

/// A backend-relative url resolved against the base url; absolute urls
/// pass through unchanged.
pub fn resolve_url(base: &str, url: &str) -> (r: String)
    ensures
        r@ == if "http"@.is_prefix_of(url@) {
            url@
        } else {
            base@ + url@
        },
{
    if starts_with_str(url, "http") {
        String::from_str(url)
    } else {
        let mut r = String::from_str(base);
        r.append(url);
        r
    }
}

/// A string attribute as a one-element sequence, absence as an empty one.
pub open spec fn opt_seq(o: Option<Seq<char>>) -> Seq<Seq<char>> {
    match o {
        Some(s) => seq![s],
        None => Seq::empty(),
    }
}

/// The candidate image urls of an entity: the values of the fixed
/// image-bearing attributes, in priority order, keeping only strings.
pub open spec fn spec_image_url_candidates(e: &EntityRecord) -> Seq<Seq<char>> {
    opt_seq(spec_attr_str(e.attributes@, "entity_picture"@)) + opt_seq(
        spec_attr_str(e.attributes@, "image_url"@),
    ) + opt_seq(spec_attr_str(e.attributes@, "picture"@)) + opt_seq(
        spec_attr_str(e.attributes@, "thumbnail"@),
    ) + opt_seq(spec_attr_str(e.attributes@, "media_content_id"@))
}

/// Collect the candidate image urls of an entity, in priority order.
pub fn image_url_candidates(e: &EntityRecord) -> (r: Vec<String>)
    ensures
        r.deep_view() == spec_image_url_candidates(e),
{
    let mut r: Vec<String> = Vec::new();
    if let Some(u) = e.attr_str("entity_picture") {
        r.push(u.clone());
    }
    if let Some(u) = e.attr_str("image_url") {
        r.push(u.clone());
    }
    if let Some(u) = e.attr_str("picture") {
        r.push(u.clone());
    }
    if let Some(u) = e.attr_str("thumbnail") {
        r.push(u.clone());
    }
    if let Some(u) = e.attr_str("media_content_id") {
        r.push(u.clone());
    }
    proof {
        assert(r.deep_view() =~~= spec_image_url_candidates(e));
    }
    r
}

/// The comma-separated sensor ids of a query, trimmed, empties dropped.
pub open spec fn spec_sensor_ids(s: Seq<char>) -> Seq<Seq<char>>
    decreases s.len(),
{
    let d = find_first(s, ',');
    if 0 <= d < s.len() {
        let head = spec_trim(s.take(d));
        let rest = spec_sensor_ids(s.skip(d + 1));
        if head.len() > 0 {
            seq![head] + rest
        } else {
            rest
        }
    } else {
        let t = spec_trim(s);
        if t.len() > 0 {
            seq![t]
        } else {
            Seq::empty()
        }
    }
}

/// Split a comma-separated sensor list, trimming each entry and dropping
/// empty ones.
pub fn parse_sensor_list(s: &str) -> (r: Vec<String>)
    ensures
        r.deep_view() == spec_sensor_ids(s@),
    decreases s@.len(),
{
    let n = s.unicode_len();
    let d = find_char(s, ',');
    if d < n {
        let head_str = s.substring_char(0, d);
        let head = trim_str(head_str);
        proof {
            assert(head_str@ =~= s@.take(d as int));
        }
        let rest_str = s.substring_char(d + 1, n);
        let mut rest = parse_sensor_list(rest_str);
        proof {
            assert(rest_str@ =~= s@.skip(d as int + 1));
        }
        if head.as_str().unicode_len() > 0 {
            let mut v: Vec<String> = Vec::new();
            v.push(head);
            v.append(&mut rest);
            proof {
                assert(v.deep_view() =~~= spec_sensor_ids(s@));
            }
            v
        } else {
            rest
        }
    } else {
        let t = trim_str(s);
        let mut v: Vec<String> = Vec::new();
        if t.as_str().unicode_len() > 0 {
            v.push(t);
        }
        proof {
            assert(v.deep_view() =~~= spec_sensor_ids(s@));
        }
        v
    }
}

} // verus!
