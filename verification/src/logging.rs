//! Logging configuration of a service.

use vstd::prelude::*;
use crate::errors::{Error, ErrorView, InterpolationError};
use crate::helpers::{
    decode_map,
    decode_optional,
    decode_result,
    empty_map,
    encode_map,
    encode_optional,
    fields_view,
    map_node,
    map_of,
    mapping_of,
    names_view,
    optional_node,
    optional_of,
    present,
    slots_of,
    struct_slots,
    DefaultValue,
    FromNode,
    ToNode,
};
use crate::interpolate_all::{InterpolateAll, Resolution};
use crate::interpolation::Environment;
use crate::merge_override::{Duplicate, MergeOverride};
use crate::node::{Node, NodeView};
use crate::raw_or::{RawOr, RawOrView};
use crate::sorted_map::SortedMap;

verus! {

/// Do `a` and `b` name the same driver, or both none?
fn same_driver(a: &Option<RawOr<String>>, b: &Option<RawOr<String>>) -> (r: bool)
    ensures
        r == (a.deep_view() == b.deep_view()),
{
    match (a, b) {
        (Some(x), Some(y)) => x.same_as(y),
        (None, None) => true,
        _ => false,
    }
}

/// Logging configuration.
#[derive(Debug, PartialEq, Eq)]
pub struct Logging {
    /// The logging driver to use.
    pub driver: Option<RawOr<String>>,
    /// Options to pass to the log driver.
    pub options: SortedMap<RawOr<String>>,
}

/// A [`Logging`], as plain values.
pub struct LoggingView {
    pub driver: Option<RawOrView<Seq<char>>>,
    pub options: Map<Seq<char>, RawOrView<Seq<char>>>,
}

impl DeepView for Logging {
    type V = LoggingView;

    open spec fn deep_view(&self) -> LoggingView {
        LoggingView {
            driver: self.driver.deep_view(),
            options: self.options.deep_view(),
        }
    }
}

impl Logging {
    /// The keys under which the fields are written, in the order in which
    /// they are written.
    pub open spec fn field_names() -> Seq<Seq<char>> {
        seq![
            "driver"@,
            "options"@,
        ]
    }

    /// The value that is read from the nodes of the fields: each field is
    /// read in its turn, and the first failure is the failure of the whole.
    pub open spec fn from_slots(slots: Seq<Option<NodeView>>) -> Result<LoggingView, ErrorView> {
        let driver = optional_of::<RawOr<String>>(slots[0]);
        let options = map_of(slots[1], |n: NodeView| SortedMap::<RawOr<String>>::decoded(n));
        if driver is Err {
            Err(driver->Err_0)
        } else if options is Err {
            Err(options->Err_0)
        } else {
            Ok(
                LoggingView {
                    driver: driver->Ok_0,
                    options: options->Ok_0,
                },
            )
        }
    }

    /// The fields with the nodes that write them.  A field that is left out
    /// has no node.
    pub open spec fn field_nodes(v: LoggingView) -> Seq<(Seq<char>, Option<NodeView>)> {
        seq![
            ("driver"@, optional_node::<RawOr<String>>(v.driver)),
            ("options"@, map_node::<RawOr<String>>(v.options)),
        ]
    }

    /// Read the fields from the mapping `node`.
    fn from_mapping(node: &Node) -> (r: Result<Logging, Error>)
        ensures
            decode_result(r) == match slots_of(node.deep_view(), Self::field_names(), "a logging configuration"@) {
                Err(e) => Err(e),
                Ok(slots) => Self::from_slots(slots),
            },
    {
        let names: Vec<&str> = vec!["driver", "options"];
        proof {
            assert(names_view(names@) =~= Self::field_names());
        }
        let slots = match struct_slots(node, &names, "a logging configuration") {
            Ok(slots) => slots,
            Err(e) => {
                return Err(e);
            },
        };
        let driver = match decode_optional::<RawOr<String>>(slots[0]) {
            Ok(v) => v,
            Err(e) => {
                return Err(e);
            },
        };
        let options = match decode_map::<RawOr<String>>(slots[1]) {
            Ok(v) => v,
            Err(e) => {
                return Err(e);
            },
        };
        Ok(Logging { driver, options })
    }

    /// Write the fields as a mapping.
    fn to_mapping(&self) -> (r: Node)
        requires
            Self::fields_writable(self.deep_view()),
        ensures
            r.deep_view() == NodeView::Mapping(present(Self::field_nodes(self.deep_view()))),
    {
        let mut fields: Vec<(&str, Option<Node>)> = Vec::new();
        fields.push(("driver", encode_optional::<RawOr<String>>(&self.driver)));
        fields.push(("options", encode_map::<RawOr<String>>(&self.options)));
        proof {
            assert(fields_view(fields@) =~= Self::field_nodes(self.deep_view()));
        }
        mapping_of(fields)
    }

    /// Can every field be written?
    pub open spec fn fields_writable(v: LoggingView) -> bool {
        &&& Option::<RawOr<String>>::writable(v.driver)
        &&& SortedMap::<RawOr<String>>::writable(v.options)
    }

    /// Can every field be written?
    fn all_writable(&self) -> (r: bool)
        ensures
            r == Self::fields_writable(self.deep_view()),
    {
        if !self.driver.is_writable() {
            return false;
        }
        if !self.options.is_writable() {
            return false;
        }
        true
    }
}

impl FromNode for Logging {
    open spec fn decoded(node: NodeView) -> Result<LoggingView, ErrorView> {
        match slots_of(node, Self::field_names(), "a logging configuration"@) {
            Err(e) => Err(e),
            Ok(slots) => Self::from_slots(slots),
        }
    }

    fn from_node(node: &Node) -> (r: Result<Logging, Error>) {
        Self::from_mapping(node)
    }
}

impl ToNode for Logging {
    open spec fn writable(v: LoggingView) -> bool {
        Self::fields_writable(v)
    }

    open spec fn encoded(v: LoggingView) -> NodeView {
        NodeView::Mapping(present(Self::field_nodes(v)))
    }

    fn to_node(&self) -> (r: Node) {
        self.to_mapping()
    }

    fn is_writable(&self) -> (r: bool) {
        self.all_writable()
    }
}

impl Duplicate for Logging {
    fn duplicate(&self) -> (r: Logging) {
        Logging {
            driver: self.driver.duplicate(),
            options: self.options.duplicate(),
        }
    }
}

impl Clone for Logging {
    fn clone(&self) -> (r: Self)
        ensures
            r.deep_view() == self.deep_view(),
    {
        self.duplicate()
    }
}

/// The drivers are merged as any field is.  The options belong to their
/// driver: they are merged only if the overriding configuration names the
/// same driver or none, and else the overriding options replace the base
/// options.
impl MergeOverride for Logging {
    open spec fn merged(base: LoggingView, ovr: LoggingView) -> LoggingView {
        LoggingView {
            driver: Option::<RawOr<String>>::merged(base.driver, ovr.driver),
            options: if base.driver == ovr.driver || ovr.driver is None {
                SortedMap::<RawOr<String>>::merged(base.options, ovr.options)
            } else {
                ovr.options
            },
        }
    }

    open spec fn sequence_free(v: LoggingView) -> bool {
        &&& Option::<RawOr<String>>::sequence_free(v.driver)
        &&& SortedMap::<RawOr<String>>::sequence_free(v.options)
    }

    proof fn lemma_merge_with_itself(v: LoggingView) {
        Option::<RawOr<String>>::lemma_merge_with_itself(v.driver);
        SortedMap::<RawOr<String>>::lemma_merge_with_itself(v.options);
    }

    fn merge_override(&self, ovr: &Logging) -> (r: Logging) {
        Logging {
            driver: self.driver.merge_override(&ovr.driver),
            options: if same_driver(&self.driver, &ovr.driver) || ovr.driver.is_none() {
                self.options.merge_override(&ovr.options)
            } else {
                ovr.options.duplicate()
            },
        }
    }
}

/// The fields are resolved one by one, in the order in which they are
/// declared.
impl InterpolateAll for Logging {
    open spec fn resolved(v: LoggingView, vars: Map<Seq<char>, Seq<char>>) -> Resolution<LoggingView> {
        let r0 = Option::<RawOr<String>>::resolved(v.driver, vars);
        let r1 = SortedMap::<RawOr<String>>::resolved(v.options, vars);
        let ok0 = r0.failure is None;
        let ok1 = ok0 && r1.failure is None;
        Resolution {
            value: LoggingView {
                driver: r0.value,
                options: if ok0 {
                    r1.value
                } else {
                    v.options
                },
            },
            failure: if !ok0 {
                r0.failure
            } else if !ok1 {
                r1.failure
            } else {
                None
            },
        }
    }

    proof fn lemma_resolved_stays(
        v: LoggingView,
        vars: Map<Seq<char>, Seq<char>>,
        again: Map<Seq<char>, Seq<char>>,
    ) {
        Option::<RawOr<String>>::lemma_resolved_stays(v.driver, vars, again);
        SortedMap::<RawOr<String>>::lemma_resolved_stays(v.options, vars, again);
    }

    fn interpolate_all<E: Environment>(&mut self, env: &E) -> (r: Result<(), InterpolationError>) {
        match self.driver.interpolate_all(env) {
            Err(e) => {
                return Err(e);
            },
            Ok(_) => {},
        }
        match self.options.interpolate_all(env) {
            Err(e) => {
                return Err(e);
            },
            Ok(_) => {},
        }
        Ok(())
    }
}

impl DefaultValue for Logging {
    open spec fn default_model() -> LoggingView {
        LoggingView {
            driver: None,
            options: Map::empty(),
        }
    }

    fn default_value() -> (r: Logging) {
        let r = Logging {
            driver: None,
            options: empty_map(),
        };
        proof {
        }
        r
    }

    fn is_default(&self) -> (r: bool) {
        proof {
        }
        self.driver.is_none()
            && self.options.has_no_entries()
    }
}

impl Default for Logging {
    fn default() -> (r: Self)
        ensures
            r.deep_view() == Self::default_model(),
    {
        Self::default_value()
    }
}

} // verus!
