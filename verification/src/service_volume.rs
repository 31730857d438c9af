//! Volumes of a service, written `[host:]container[:permissions]`.

use vstd::prelude::*;
use vstd::string::StringExecFns;
use crate::errors::{InvalidValueError, InvalidValueErrorView};
use crate::merge_override::Duplicate;
use crate::permissions::VolumePermissions;
use crate::raw_or::{parse_result, InterpolatableValue};
use crate::text::{
    chars_of,
    find_char,
    has_char,
    index_of,
    lacks_char,
    lemma_index_of,
    string_of_range,
};
use crate::volume_mount::{
    is_absolute,
    lemma_first_colon,
    HostVolume,
    HostVolumeView,
};

verus! {

/// The word that names permissions holds no colon.
proof fn lemma_permissions_text_lacks_colon(p: VolumePermissions)
    ensures
        !has_char(VolumePermissions::formatted(p), ':'),
        VolumePermissions::formatted(p).len() > 0,
{
    reveal_strlit("rw");
    reveal_strlit("ro");
    let s = VolumePermissions::formatted(p);
    lemma_index_of(s, ':');
    if has_char(s, ':') {
        let i = choose|i: int| 0 <= i < s.len() && #[trigger] s[i] == ':';
        if i == 0 {
        } else {
        }
    }
}

/// A volume associated with a service, with the permissions that the
/// container has on it.
#[derive(Debug, Clone, PartialEq, Eq)]
pub struct ServiceVolume {
    /// Where the volume is found, if it comes from outside the container.
    pub host: Option<HostVolume>,
    /// Where the volume is mounted in the container.  This must be an
    /// absolute path.
    pub container: String,
    /// The permissions of the volume in the container.
    pub permissions: VolumePermissions,
}

/// A [`ServiceVolume`], as plain values.
pub struct ServiceVolumeView {
    pub host: Option<HostVolumeView>,
    pub container: Seq<char>,
    pub permissions: VolumePermissions,
}

impl DeepView for ServiceVolume {
    type V = ServiceVolumeView;

    open spec fn deep_view(&self) -> ServiceVolumeView {
        ServiceVolumeView {
            host: match self.host {
                Some(h) => Some(h.deep_view()),
                None => None,
            },
            container: self.container@,
            permissions: self.permissions,
        }
    }
}

impl ServiceVolume {
    /// Map the host path `host` to the container path `container`.
    pub fn host(host: &str, container: &str) -> (r: ServiceVolume)
        ensures
            r.deep_view() == (ServiceVolumeView {
                host: Some(HostVolumeView::Path(host@)),
                container: container@,
                permissions: VolumePermissions::ReadWrite,
            }),
    {
        ServiceVolume {
            host: Some(HostVolume::Path(host.to_owned())),
            container: container.to_owned(),
            permissions: VolumePermissions::ReadWrite,
        }
    }

    /// Map the named volume `name` to the container path `container`.
    pub fn named(name: &str, container: &str) -> (r: ServiceVolume)
        ensures
            r.deep_view() == (ServiceVolumeView {
                host: Some(HostVolumeView::Name(name@)),
                container: container@,
                permissions: VolumePermissions::ReadWrite,
            }),
    {
        ServiceVolume {
            host: Some(HostVolume::Name(name.to_owned())),
            container: container.to_owned(),
            permissions: VolumePermissions::ReadWrite,
        }
    }

    /// An anonymous persistent volume at the container path `container`,
    /// which stays with its service when the service is made anew.
    pub fn anonymous(container: &str) -> (r: ServiceVolume)
        ensures
            r.deep_view() == (ServiceVolumeView {
                host: None,
                container: container@,
                permissions: VolumePermissions::ReadWrite,
            }),
    {
        ServiceVolume { host: None, container: container.to_owned(), permissions: VolumePermissions::ReadWrite }
    }

    /// Parse `container`, `host:container` or `host:container:permissions`.
    pub fn from_str(s: &str) -> (r: Result<ServiceVolume, InvalidValueError>)
        ensures
            parse_result(r) == Self::parse_model(s@),
    {
        let chars = chars_of(s);
        let n = chars.len();
        let first = find_char(&chars, 0, n, ':');
        proof {
            assert(chars@.subrange(0, n as int) == chars@);
        }
        if first == n {
            return Ok(
                ServiceVolume { host: None, container: s.to_owned(), permissions: VolumePermissions::ReadWrite },
            );
        }
        let ghost rest = s@.skip(first + 1);
        let second = find_char(&chars, first + 1, n, ':');
        proof {
            assert(chars@.subrange(first + 1, n as int) == rest);
            assert(chars@.subrange(0, first as int) == s@.take(first as int));
            assert(chars@.subrange(first + 1, second as int) == rest.take(second - first - 1));
        }
        let host_text = string_of_range(&chars, 0, first);
        if second == n {
            return match HostVolume::from_str(host_text.as_str()) {
                Ok(host) => Ok(
                    ServiceVolume {
                        host: Some(host),
                        container: string_of_range(&chars, first + 1, n),
                        permissions: VolumePermissions::ReadWrite,
                    },
                ),
                Err(e) => Err(e),
            };
        }
        let third = find_char(&chars, second + 1, n, ':');
        proof {
            assert(chars@.subrange(second + 1, n as int) == rest.skip(second - first));
        }
        if third < n {
            return Err(InvalidValueError::new("volume", s));
        }
        let host = match HostVolume::from_str(host_text.as_str()) {
            Ok(host) => host,
            Err(e) => {
                return Err(e);
            },
        };
        let permissions_text = string_of_range(&chars, second + 1, n);
        match VolumePermissions::from_str(permissions_text.as_str()) {
            Ok(permissions) => Ok(
                ServiceVolume {
                    host: Some(host),
                    container: string_of_range(&chars, first + 1, second),
                    permissions,
                },
            ),
            Err(e) => Err(e),
        }
    }

    /// The text of this mount.  A volume that does not come from outside
    /// the container cannot be written with permissions.
    pub fn to_string(&self) -> (r: String)
        requires
            self.host is None ==> self.permissions == VolumePermissions::ReadWrite,
            self.deep_view().host matches Some(HostVolumeView::UserRelativePath(p)) ==> !is_absolute(
                p,
            ),
        ensures
            r@ == Self::formatted(self.deep_view()),
    {
        let mut out = String::new();
        if let Some(host) = &self.host {
            let text = host.to_string();
            out.append(text.as_str());
            out.push(':');
        }
        out.append(self.container.as_str());
        if !self.permissions.is_default() {
            out.push(':');
            let text = self.permissions.to_string();
            out.append(text.as_str());
        }
        proof {
            assert(out@ =~= Self::formatted(self.deep_view()));
        }
        out
    }
}

impl Duplicate for ServiceVolume {
    fn duplicate(&self) -> (r: ServiceVolume) {
        ServiceVolume {
            host: match &self.host {
                Some(h) => Some(h.duplicate()),
                None => None,
            },
            container: self.container.clone(),
            permissions: self.permissions,
        }
    }
}

impl InterpolatableValue for ServiceVolume {
    open spec fn valid(v: ServiceVolumeView) -> bool {
        &&& !has_char(v.container, ':')
        &&& v.host is None ==> v.permissions == VolumePermissions::ReadWrite
        &&& v.host matches Some(h) ==> HostVolume::valid(h) && !has_char(
            HostVolume::formatted(h),
            ':',
        )
    }

    open spec fn parse_model(s: Seq<char>) -> Result<ServiceVolumeView, InvalidValueErrorView> {
        let first = index_of(s, ':');
        let rest = s.skip(first + 1);
        let second = index_of(rest, ':');
        let host = HostVolume::parse_model(s.take(first));
        let permissions = VolumePermissions::parse_model(rest.skip(second + 1));
        if first == s.len() {
            Ok(ServiceVolumeView { host: None, container: s, permissions: VolumePermissions::ReadWrite })
        } else if second == rest.len() {
            match host {
                Ok(h) => Ok(
                    ServiceVolumeView { host: Some(h), container: rest, permissions: VolumePermissions::ReadWrite },
                ),
                Err(e) => Err(e),
            }
        } else if has_char(rest.skip(second + 1), ':') {
            Err(InvalidValueErrorView { wanted: "volume"@, input: s })
        } else {
            match (host, permissions) {
                (Err(e), _) => Err(e),
                (Ok(_), Err(e)) => Err(e),
                (Ok(h), Ok(m)) => Ok(
                    ServiceVolumeView { host: Some(h), container: rest.take(second), permissions: m },
                ),
            }
        }
    }

    open spec fn formatted(v: ServiceVolumeView) -> Seq<char> {
        (match v.host {
            Some(h) => HostVolume::formatted(h) + seq![':'],
            None => Seq::empty(),
        }) + v.container + if v.permissions == VolumePermissions::ReadWrite {
            Seq::empty()
        } else {
            seq![':'] + VolumePermissions::formatted(v.permissions)
        }
    }

    proof fn lemma_parse_formatted(v: ServiceVolumeView) {
        let s = Self::formatted(v);
        let colon = seq![':'];
        lemma_index_of(v.container, ':');
        match v.host {
            None => {
                assert(s == v.container);
            },
            Some(h) => {
                let host = HostVolume::formatted(h);
                HostVolume::lemma_parse_formatted(h);
                let rest: Seq<char> = v.container + if v.permissions == VolumePermissions::ReadWrite {
                    Seq::empty()
                } else {
                    colon + VolumePermissions::formatted(v.permissions)
                };
                assert(s =~= host + (colon + rest));
                lemma_first_colon(host, rest);
                if v.permissions == VolumePermissions::ReadWrite {
                    assert(rest == v.container);
                } else {
                    let permissions = VolumePermissions::formatted(v.permissions);
                    lemma_permissions_text_lacks_colon(v.permissions);
                    assert(rest =~= v.container + (colon + permissions));
                    lemma_first_colon(v.container, permissions);
                    VolumePermissions::lemma_parse_formatted(v.permissions);
                }
            },
        }
    }

    fn iv_from_str(s: &str) -> (r: Result<ServiceVolume, InvalidValueError>) {
        ServiceVolume::from_str(s)
    }

    fn fmt_iv(&self) -> (r: String) {
        self.to_string()
    }

    fn is_valid(&self) -> (r: bool) {
        if !lacks_char(self.container.as_str(), ':') {
            return false;
        }
        match &self.host {
            None => self.permissions.is_default(),
            Some(host) => {
                if !host.is_valid() {
                    return false;
                }
                let text = host.to_string();
                lacks_char(text.as_str(), ':')
            },
        }
    }
}

} // verus!
