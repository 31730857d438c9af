//! Volumes that a container takes over from another.

use vstd::prelude::*;
use vstd::string::StringExecFns;
use crate::errors::{InvalidValueError, InvalidValueErrorView};
use crate::merge_override::Duplicate;
use crate::permissions::VolumePermissions;
use crate::raw_or::{parse_result, InterpolatableValue};
use crate::text::{
    chars_of,
    find_char,
    has_char,
    has_prefix,
    index_of,
    is_empty_text,
    lacks_char,
    lemma_index_of,
    same_text,
    starts_with,
    string_of_range,
};
use crate::volume_mount::lemma_first_colon;

verus! {

/// The name of either a service or a container.
#[derive(Debug, Clone, PartialEq, Eq)]
pub enum ServiceOrContainer {
    /// The local name of a service defined in the same file.
    Service(String),
    /// The global name of a container running under Docker.
    Container(String),
}

/// A [`ServiceOrContainer`], as plain values.
pub enum ServiceOrContainerView {
    Service(Seq<char>),
    Container(Seq<char>),
}

impl DeepView for ServiceOrContainer {
    type V = ServiceOrContainerView;

    open spec fn deep_view(&self) -> ServiceOrContainerView {
        match self {
            ServiceOrContainer::Service(n) => ServiceOrContainerView::Service(n@),
            ServiceOrContainer::Container(n) => ServiceOrContainerView::Container(n@),
        }
    }
}

/// Mount the volumes of another service or container.  It is written
/// `[container:]name[:permissions]`.
#[derive(Debug, Clone, PartialEq, Eq)]
pub struct VolumesFrom {
    /// Where the volumes come from.
    pub source: ServiceOrContainer,
    /// The permissions that apply to the volumes.
    pub permissions: VolumePermissions,
}

/// A [`VolumesFrom`], as plain values.
pub struct VolumesFromView {
    pub source: ServiceOrContainerView,
    pub permissions: VolumePermissions,
}

impl DeepView for VolumesFrom {
    type V = VolumesFromView;

    open spec fn deep_view(&self) -> VolumesFromView {
        VolumesFromView { source: self.source.deep_view(), permissions: self.permissions }
    }
}

/// The name in a source of volumes.
pub open spec fn source_name(v: ServiceOrContainerView) -> Seq<char> {
    match v {
        ServiceOrContainerView::Service(n) => n,
        ServiceOrContainerView::Container(n) => n,
    }
}

impl VolumesFrom {
    /// Take the volumes of the service `service` of the same file.
    pub fn service(service: &str) -> (r: VolumesFrom)
        ensures
            r.deep_view() == (VolumesFromView {
                source: ServiceOrContainerView::Service(service@),
                permissions: VolumePermissions::ReadWrite,
            }),
    {
        VolumesFrom {
            source: ServiceOrContainer::Service(service.to_owned()),
            permissions: VolumePermissions::ReadWrite,
        }
    }

    /// Take the volumes of the container `container`, which is defined
    /// elsewhere.
    pub fn container(container: &str) -> (r: VolumesFrom)
        ensures
            r.deep_view() == (VolumesFromView {
                source: ServiceOrContainerView::Container(container@),
                permissions: VolumePermissions::ReadWrite,
            }),
    {
        VolumesFrom {
            source: ServiceOrContainer::Container(container.to_owned()),
            permissions: VolumePermissions::ReadWrite,
        }
    }

    /// Parse `[container:]name[:permissions]`.
    pub fn from_str(s: &str) -> (r: Result<VolumesFrom, InvalidValueError>)
        ensures
            parse_result(r) == Self::parse_model(s@),
    {
        let chars = chars_of(s);
        let n = chars.len();
        proof {
            reveal_strlit("container:");
            assert(chars@.skip(0) == chars@);
        }
        let is_container = starts_with(&chars, 0, "container:");
        let from: usize = if is_container {
            10
        } else {
            0
        };
        let ghost body = s@.skip(from as int);
        let colon = find_char(&chars, from, n, ':');
        proof {
            assert(chars@.subrange(from as int, n as int) == body);
            assert(chars@.subrange(from as int, colon as int) == body.take(colon - from));
        }
        if colon == from {
            return Err(InvalidValueError::new("volumes_from", s));
        }
        let permissions = if colon == n {
            VolumePermissions::ReadWrite
        } else {
            let end = find_char(&chars, colon + 1, n, ':');
            proof {
                assert(chars@.subrange(colon + 1, n as int) == body.skip(colon - from + 1));
            }
            if colon + 1 == n || end < n {
                return Err(InvalidValueError::new("volumes_from", s));
            }
            let text = string_of_range(&chars, colon + 1, n);
            match VolumePermissions::from_str(text.as_str()) {
                Ok(p) => p,
                Err(e) => {
                    return Err(e);
                },
            }
        };
        let name = string_of_range(&chars, from, colon);
        let source = if is_container {
            ServiceOrContainer::Container(name)
        } else {
            ServiceOrContainer::Service(name)
        };
        Ok(VolumesFrom { source, permissions })
    }

    /// The text of this source of volumes.  A service is written by its
    /// name alone.
    pub fn to_string(&self) -> (r: String)
        ensures
            r@ == Self::formatted(self.deep_view()),
    {
        let mut out = String::new();
        match &self.source {
            ServiceOrContainer::Service(name) => {
                out.append(name.as_str());
            },
            ServiceOrContainer::Container(name) => {
                out.append("container:");
                out.append(name.as_str());
            },
        }
        if !self.permissions.is_default() {
            out.push(':');
            let text = self.permissions.to_string();
            out.append(text.as_str());
        }
        proof {
            assert(out@ =~= Self::formatted(self.deep_view()));
        }
        out
    }
}

impl Duplicate for VolumesFrom {
    fn duplicate(&self) -> (r: VolumesFrom) {
        VolumesFrom {
            source: match &self.source {
                ServiceOrContainer::Service(n) => ServiceOrContainer::Service(n.clone()),
                ServiceOrContainer::Container(n) => ServiceOrContainer::Container(n.clone()),
            },
            permissions: self.permissions,
        }
    }
}

impl InterpolatableValue for VolumesFrom {
    /// A name is not empty and holds no colon.  A service that is written
    /// with permissions is not called `container`: it would read back as
    /// a container.
    open spec fn valid(v: VolumesFromView) -> bool {
        &&& source_name(v.source).len() > 0
        &&& !has_char(source_name(v.source), ':')
        &&& v.source is Service && v.permissions != VolumePermissions::ReadWrite ==> source_name(
            v.source,
        ) != "container"@
    }

    open spec fn parse_model(s: Seq<char>) -> Result<VolumesFromView, InvalidValueErrorView> {
        let is_container = has_prefix(s, "container:"@);
        let body = if is_container {
            s.skip("container:"@.len() as int)
        } else {
            s
        };
        let colon = index_of(body, ':');
        let name = body.take(colon);
        let rest = body.skip(colon + 1);
        let source = if is_container {
            ServiceOrContainerView::Container(name)
        } else {
            ServiceOrContainerView::Service(name)
        };
        if name.len() == 0 || (colon < body.len() && (rest.len() == 0 || has_char(rest, ':'))) {
            Err(InvalidValueErrorView { wanted: "volumes_from"@, input: s })
        } else if colon == body.len() {
            Ok(VolumesFromView { source, permissions: VolumePermissions::ReadWrite })
        } else {
            match VolumePermissions::parse_model(rest) {
                Ok(permissions) => Ok(VolumesFromView { source, permissions }),
                Err(e) => Err(e),
            }
        }
    }

    open spec fn formatted(v: VolumesFromView) -> Seq<char> {
        (match v.source {
            ServiceOrContainerView::Service(n) => n,
            ServiceOrContainerView::Container(n) => "container:"@ + n,
        }) + if v.permissions == VolumePermissions::ReadWrite {
            Seq::empty()
        } else {
            seq![':'] + VolumePermissions::formatted(v.permissions)
        }
    }

    proof fn lemma_parse_formatted(v: VolumesFromView) {
        let s = Self::formatted(v);
        let name = source_name(v.source);
        let prefix = "container:"@;
        reveal_strlit("container:");
        reveal_strlit("container");
        reveal_strlit("ro");
        let body: Seq<char> = name + if v.permissions == VolumePermissions::ReadWrite {
            Seq::empty()
        } else {
            seq![':'] + "ro"@
        };
        lemma_index_of(name, ':');
        // The body reads back as the name and the permissions.
        if v.permissions == VolumePermissions::ReadWrite {
            assert(body == name);
            assert(body.take(body.len() as int) == body);
        } else {
            let perm = "ro"@;
            assert(body =~= name + (seq![':'] + perm));
            lemma_first_colon(name, perm);
            lemma_index_of(perm, ':');
            if has_char(perm, ':') {
                let i = choose|i: int| 0 <= i < perm.len() && #[trigger] perm[i] == ':';
                if i == 0 {
                } else {
                }
            }
            VolumePermissions::lemma_parse_formatted(v.permissions);
        }
        match v.source {
            ServiceOrContainerView::Container(_) => {
                assert(s =~= prefix + body);
                assert(s.take(prefix.len() as int) == prefix);
                assert(s.skip(prefix.len() as int) == body);
            },
            ServiceOrContainerView::Service(_) => {
                assert(s =~= body);
                if has_prefix(s, prefix) {
                    let head = s.take(10);
                    assert(head[9] == ':');
                    assert(s[9] == ':');
                    assert forall|i: int| 0 <= i < 9 implies s[i] != ':' by {
                        assert(head[i] == s[i]);
                        if i == 0 {
                        } else if i == 1 {
                        } else if i == 2 {
                        } else if i == 3 {
                        } else if i == 4 {
                        } else if i == 5 {
                        } else if i == 6 {
                        } else if i == 7 {
                        } else {
                        }
                    }
                    lemma_index_of(s, ':');
                    assert(index_of(s, ':') == 9);
                    if v.permissions == VolumePermissions::ReadWrite {
                        assert(name[9] == s[9]);
                    } else {
                        assert(name.len() == 9);
                        assert(name =~= "container"@) by {
                            assert forall|i: int| 0 <= i < 9 implies name[i] == "container"@[i] by {
                                assert(name[i] == s[i]);
                                assert(head[i] == s[i]);
                                if i == 0 {
                                } else if i == 1 {
                                } else if i == 2 {
                                } else if i == 3 {
                                } else if i == 4 {
                                } else if i == 5 {
                                } else if i == 6 {
                                } else if i == 7 {
                                } else {
                                }
                            }
                        }
                    }
                }
            },
        }
    }

    fn iv_from_str(s: &str) -> (r: Result<VolumesFrom, InvalidValueError>) {
        VolumesFrom::from_str(s)
    }

    fn fmt_iv(&self) -> (r: String) {
        self.to_string()
    }

    fn is_valid(&self) -> (r: bool) {
        let name = match &self.source {
            ServiceOrContainer::Service(n) => n,
            ServiceOrContainer::Container(n) => n,
        };
        let is_service = match &self.source {
            ServiceOrContainer::Service(_) => true,
            ServiceOrContainer::Container(_) => false,
        };
        !is_empty_text(name.as_str()) && lacks_char(name.as_str(), ':') && !(is_service
            && !self.permissions.is_default() && same_text(name.as_str(), "container"))
    }
}

} // verus!
