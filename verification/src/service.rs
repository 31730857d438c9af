//! Services.

use vstd::prelude::*;
use crate::errors::{Error, ErrorView, InterpolationError};
use crate::helpers::{
    decode_flag,
    decode_item_or_list,
    decode_list,
    decode_map_or_default_list,
    decode_map_or_key_optional_value_list,
    decode_map_or_key_value_list,
    decode_optional,
    decode_result,
    empty_map,
    encode_flag,
    encode_list,
    encode_map,
    encode_optional,
    fields_view,
    flag_node,
    flag_of,
    item_or_list_of,
    list_node,
    list_of,
    map_node,
    map_of,
    map_or_default_list,
    map_or_key_optional_value_list,
    map_or_key_value_list,
    mapping_of,
    names_view,
    optional_node,
    optional_of,
    present,
    slots_of,
    struct_slots,
    DefaultValue,
    FromNode,
    ToNode,
};
use crate::interpolate_all::{InterpolateAll, Resolution};
use crate::interpolation::Environment;
use crate::merge_override::{Duplicate, MergeOverride};
use crate::node::{Node, NodeView};
use crate::raw_or::{RawOr, RawOrView};
use crate::sorted_map::SortedMap;
use crate::aliased_name::{AliasedName, AliasedNameView};
use crate::env_file::{literal_environment, EnvFile};
use crate::builds::{Build, BuildView};
use crate::command_line::{CommandLine, CommandLineView};
use crate::extends::{Extends, ExtendsView};
use crate::healthcheck::{Healthcheck, HealthcheckView};
use crate::host_mapping::{HostMapping, HostMappingView};
use crate::image::{Image, ImageView};
use crate::logging::{Logging, LoggingView};
use crate::memory_size::MemorySize;
use crate::mode_enum::{IpcMode, IpcModeView, NetworkMode, NetworkModeView, PidMode, PidModeView, RestartMode};
use crate::network_interface::{NetworkInterface, NetworkInterfaceView};
use crate::port_mapping::PortMapping;
use crate::volume_mount::{VolumeMount, VolumeMountView};
use crate::volumes_from::{VolumesFrom, VolumesFromView};

verus! {

/// A service which will be managed by `docker-compose`.
#[derive(Debug, PartialEq, Eq)]
pub struct Service {
    /// How to build an image for this service.
    pub build: Option<Build>,
    /// A list of capability names to grant to this container.
    pub cap_add: Vec<RawOr<String>>,
    /// A list of capability names to revoke from this container.
    pub cap_drop: Vec<RawOr<String>>,
    /// The command line to run when launching the container.
    pub command: Option<CommandLine>,
    /// The name of an optional parent cgroup.
    pub cgroup_parent: Option<RawOr<String>>,
    /// An optional (global, non-scalable) container name.
    pub container_name: Option<RawOr<String>>,
    /// A list of devices to map into this container.
    pub devices: Vec<RawOr<AliasedName>>,
    /// A list of other containers to start first.
    pub depends_on: Vec<RawOr<String>>,
    /// DNS servers.
    pub dns: Vec<RawOr<String>>,
    /// Domains to search for hostnames.
    pub dns_search: Vec<RawOr<String>>,
    /// Locations to mount temporary file systems.
    pub tmpfs: Vec<RawOr<String>>,
    /// The entrypoint for the container (wraps `command`, basically).
    pub entrypoint: Option<CommandLine>,
    /// Environment files used to supply variables to the container. The key in
    /// the file is `env_file`.
    pub env_files: Vec<RawOr<String>>,
    /// Environment variables and values to supply to the container. A variable
    /// without a value is passed through from the host.
    pub environment: SortedMap<Option<RawOr<String>>>,
    /// Expose a list of ports to any containers that link to us.
    pub expose: Vec<RawOr<String>>,
    /// Extend another service, either in this file or another.
    pub extends: Option<Extends>,
    /// Links to external containers.
    pub external_links: Vec<RawOr<AliasedName>>,
    /// Mappings for extra hosts in `/etc/hosts`.
    pub extra_hosts: Vec<RawOr<HostMapping>>,
    /// Settings for running health checks on the service.
    pub healthcheck: Option<Healthcheck>,
    /// The name of the image to build or pull for this container.
    pub image: Option<RawOr<Image>>,
    /// Docker labels for this container, specifying various sorts of custom
    /// metadata.
    pub labels: SortedMap<RawOr<String>>,
    /// Links to other services in this file.
    pub links: Vec<RawOr<AliasedName>>,
    /// Logging options for this container.
    pub logging: Option<Logging>,
    /// What networking mode to use.
    pub network_mode: Option<RawOr<NetworkMode>>,
    /// Networks to which this container is attached.
    pub networks: SortedMap<NetworkInterface>,
    /// What PID namespacing mode to use.
    pub pid: Option<RawOr<PidMode>>,
    /// What ports to map to the host system.
    pub ports: Vec<RawOr<PortMapping>>,
    /// Security options for AppArmor or SELinux.
    pub security_opt: Vec<RawOr<String>>,
    /// The name of the Unix signal which will be sent to stop this container.
    /// Defaults to SIGTERM.
    pub stop_signal: Option<RawOr<String>>,
    /// Volumes associated with this service.
    pub volumes: Vec<RawOr<VolumeMount>>,
    /// Other places to get volumes from.
    pub volumes_from: Vec<RawOr<VolumesFrom>>,
    /// The driver of the volumes that have no host path and are not declared at
    /// the top level of the file.
    pub volume_driver: Option<RawOr<String>>,
    /// The relative number of CPU shares to give to this container.
    pub cpu_shares: Option<u32>,
    /// Limit the CFS CPU quota.
    pub cpu_quota: Option<u32>,
    /// The domain name to use for this container.
    pub domainname: Option<RawOr<String>>,
    /// The hostname to use for this container.
    pub hostname: Option<RawOr<String>>,
    /// What IPC namespacing mode to use.
    pub ipc: Option<RawOr<IpcMode>>,
    /// The MAC address to use for this container's network interface.
    pub mac_address: Option<RawOr<String>>,
    /// The maximum amount of memory which this container may use, in bytes.
    pub mem_limit: Option<RawOr<MemorySize>>,
    /// The maximum amount of swap space which this container may use, in bytes.
    pub memswap_limit: Option<RawOr<MemorySize>>,
    /// Give extended privileges to this container.
    pub privileged: bool,
    /// What to do when the container exits.
    pub restart: Option<RawOr<RestartMode>>,
    /// The amount of shared memory to allocate for this container, in bytes.
    pub shm_size: Option<RawOr<MemorySize>>,
    /// Should STDIN be left open when running the container? Corresponds to
    /// `docker run -i`.
    pub stdin_open: bool,
    /// Should a TTY be be allocated for the container? Corresponds to `docker
    /// run -t`.
    pub tty: bool,
    /// The user name (or UID) of the user under which to execute the
    /// container's command. May optionally be followed by `:group` or `:gid`.
    pub user: Option<RawOr<String>>,
    /// The working directory to use for this container.
    pub working_dir: Option<RawOr<String>>,
    /// Negative scores make a container less likely to be killed when the
    /// kernel can't find memory; positive scores make it more likely.
    pub oom_score_adj: Option<i16>,
    /// Extra groups to grant to the user.
    pub group_add: Vec<String>,
}

/// A [`Service`], as plain values.
pub struct ServiceView {
    pub build: Option<BuildView>,
    pub cap_add: Seq<RawOrView<Seq<char>>>,
    pub cap_drop: Seq<RawOrView<Seq<char>>>,
    pub command: Option<CommandLineView>,
    pub cgroup_parent: Option<RawOrView<Seq<char>>>,
    pub container_name: Option<RawOrView<Seq<char>>>,
    pub devices: Seq<RawOrView<AliasedNameView>>,
    pub depends_on: Seq<RawOrView<Seq<char>>>,
    pub dns: Seq<RawOrView<Seq<char>>>,
    pub dns_search: Seq<RawOrView<Seq<char>>>,
    pub tmpfs: Seq<RawOrView<Seq<char>>>,
    pub entrypoint: Option<CommandLineView>,
    pub env_files: Seq<RawOrView<Seq<char>>>,
    pub environment: Map<Seq<char>, Option<RawOrView<Seq<char>>>>,
    pub expose: Seq<RawOrView<Seq<char>>>,
    pub extends: Option<ExtendsView>,
    pub external_links: Seq<RawOrView<AliasedNameView>>,
    pub extra_hosts: Seq<RawOrView<HostMappingView>>,
    pub healthcheck: Option<HealthcheckView>,
    pub image: Option<RawOrView<ImageView>>,
    pub labels: Map<Seq<char>, RawOrView<Seq<char>>>,
    pub links: Seq<RawOrView<AliasedNameView>>,
    pub logging: Option<LoggingView>,
    pub network_mode: Option<RawOrView<NetworkModeView>>,
    pub networks: Map<Seq<char>, NetworkInterfaceView>,
    pub pid: Option<RawOrView<PidModeView>>,
    pub ports: Seq<RawOrView<PortMapping>>,
    pub security_opt: Seq<RawOrView<Seq<char>>>,
    pub stop_signal: Option<RawOrView<Seq<char>>>,
    pub volumes: Seq<RawOrView<VolumeMountView>>,
    pub volumes_from: Seq<RawOrView<VolumesFromView>>,
    pub volume_driver: Option<RawOrView<Seq<char>>>,
    pub cpu_shares: Option<u32>,
    pub cpu_quota: Option<u32>,
    pub domainname: Option<RawOrView<Seq<char>>>,
    pub hostname: Option<RawOrView<Seq<char>>>,
    pub ipc: Option<RawOrView<IpcModeView>>,
    pub mac_address: Option<RawOrView<Seq<char>>>,
    pub mem_limit: Option<RawOrView<nat>>,
    pub memswap_limit: Option<RawOrView<nat>>,
    pub privileged: bool,
    pub restart: Option<RawOrView<RestartMode>>,
    pub shm_size: Option<RawOrView<nat>>,
    pub stdin_open: bool,
    pub tty: bool,
    pub user: Option<RawOrView<Seq<char>>>,
    pub working_dir: Option<RawOrView<Seq<char>>>,
    pub oom_score_adj: Option<i16>,
    pub group_add: Seq<Seq<char>>,
}

impl DeepView for Service {
    type V = ServiceView;

    open spec fn deep_view(&self) -> ServiceView {
        ServiceView {
            build: self.build.deep_view(),
            cap_add: self.cap_add.deep_view(),
            cap_drop: self.cap_drop.deep_view(),
            command: self.command.deep_view(),
            cgroup_parent: self.cgroup_parent.deep_view(),
            container_name: self.container_name.deep_view(),
            devices: self.devices.deep_view(),
            depends_on: self.depends_on.deep_view(),
            dns: self.dns.deep_view(),
            dns_search: self.dns_search.deep_view(),
            tmpfs: self.tmpfs.deep_view(),
            entrypoint: self.entrypoint.deep_view(),
            env_files: self.env_files.deep_view(),
            environment: self.environment.deep_view(),
            expose: self.expose.deep_view(),
            extends: self.extends.deep_view(),
            external_links: self.external_links.deep_view(),
            extra_hosts: self.extra_hosts.deep_view(),
            healthcheck: self.healthcheck.deep_view(),
            image: self.image.deep_view(),
            labels: self.labels.deep_view(),
            links: self.links.deep_view(),
            logging: self.logging.deep_view(),
            network_mode: self.network_mode.deep_view(),
            networks: self.networks.deep_view(),
            pid: self.pid.deep_view(),
            ports: self.ports.deep_view(),
            security_opt: self.security_opt.deep_view(),
            stop_signal: self.stop_signal.deep_view(),
            volumes: self.volumes.deep_view(),
            volumes_from: self.volumes_from.deep_view(),
            volume_driver: self.volume_driver.deep_view(),
            cpu_shares: self.cpu_shares.deep_view(),
            cpu_quota: self.cpu_quota.deep_view(),
            domainname: self.domainname.deep_view(),
            hostname: self.hostname.deep_view(),
            ipc: self.ipc.deep_view(),
            mac_address: self.mac_address.deep_view(),
            mem_limit: self.mem_limit.deep_view(),
            memswap_limit: self.memswap_limit.deep_view(),
            privileged: self.privileged.deep_view(),
            restart: self.restart.deep_view(),
            shm_size: self.shm_size.deep_view(),
            stdin_open: self.stdin_open.deep_view(),
            tty: self.tty.deep_view(),
            user: self.user.deep_view(),
            working_dir: self.working_dir.deep_view(),
            oom_score_adj: self.oom_score_adj.deep_view(),
            group_add: self.group_add.deep_view(),
        }
    }
}

impl Service {
    /// The keys under which the fields are written, in the order in which
    /// they are written.
    pub open spec fn field_names() -> Seq<Seq<char>> {
        seq![
            "build"@,
            "cap_add"@,
            "cap_drop"@,
            "command"@,
            "cgroup_parent"@,
            "container_name"@,
            "devices"@,
            "depends_on"@,
            "dns"@,
            "dns_search"@,
            "tmpfs"@,
            "entrypoint"@,
            "env_file"@,
            "environment"@,
            "expose"@,
            "extends"@,
            "external_links"@,
            "extra_hosts"@,
            "healthcheck"@,
            "image"@,
            "labels"@,
            "links"@,
            "logging"@,
            "network_mode"@,
            "networks"@,
            "pid"@,
            "ports"@,
            "security_opt"@,
            "stop_signal"@,
            "volumes"@,
            "volumes_from"@,
            "volume_driver"@,
            "cpu_shares"@,
            "cpu_quota"@,
            "domainname"@,
            "hostname"@,
            "ipc"@,
            "mac_address"@,
            "mem_limit"@,
            "memswap_limit"@,
            "privileged"@,
            "restart"@,
            "shm_size"@,
            "stdin_open"@,
            "tty"@,
            "user"@,
            "working_dir"@,
            "oom_score_adj"@,
            "group_add"@,
        ]
    }

    /// The value that is read from the nodes of the fields: each field is
    /// read in its turn, and the first failure is the failure of the whole.
    pub open spec fn from_slots(slots: Seq<Option<NodeView>>) -> Result<ServiceView, ErrorView> {
        let build = optional_of::<Build>(slots[0]);
        let cap_add = list_of::<RawOr<String>>(slots[1]);
        let cap_drop = list_of::<RawOr<String>>(slots[2]);
        let command = optional_of::<CommandLine>(slots[3]);
        let cgroup_parent = optional_of::<RawOr<String>>(slots[4]);
        let container_name = optional_of::<RawOr<String>>(slots[5]);
        let devices = list_of::<RawOr<AliasedName>>(slots[6]);
        let depends_on = list_of::<RawOr<String>>(slots[7]);
        let dns = item_or_list_of::<String>(slots[8]);
        let dns_search = item_or_list_of::<String>(slots[9]);
        let tmpfs = item_or_list_of::<String>(slots[10]);
        let entrypoint = optional_of::<CommandLine>(slots[11]);
        let env_files = item_or_list_of::<String>(slots[12]);
        let environment = map_of(slots[13], |n: NodeView| map_or_key_optional_value_list(n));
        let expose = list_of::<RawOr<String>>(slots[14]);
        let extends = optional_of::<Extends>(slots[15]);
        let external_links = list_of::<RawOr<AliasedName>>(slots[16]);
        let extra_hosts = list_of::<RawOr<HostMapping>>(slots[17]);
        let healthcheck = optional_of::<Healthcheck>(slots[18]);
        let image = optional_of::<RawOr<Image>>(slots[19]);
        let labels = map_of(slots[20], |n: NodeView| map_or_key_value_list(n));
        let links = list_of::<RawOr<AliasedName>>(slots[21]);
        let logging = optional_of::<Logging>(slots[22]);
        let network_mode = optional_of::<RawOr<NetworkMode>>(slots[23]);
        let networks = map_of(slots[24], |n: NodeView| map_or_default_list::<NetworkInterface>(n));
        let pid = optional_of::<RawOr<PidMode>>(slots[25]);
        let ports = list_of::<RawOr<PortMapping>>(slots[26]);
        let security_opt = list_of::<RawOr<String>>(slots[27]);
        let stop_signal = optional_of::<RawOr<String>>(slots[28]);
        let volumes = list_of::<RawOr<VolumeMount>>(slots[29]);
        let volumes_from = list_of::<RawOr<VolumesFrom>>(slots[30]);
        let volume_driver = optional_of::<RawOr<String>>(slots[31]);
        let cpu_shares = optional_of::<u32>(slots[32]);
        let cpu_quota = optional_of::<u32>(slots[33]);
        let domainname = optional_of::<RawOr<String>>(slots[34]);
        let hostname = optional_of::<RawOr<String>>(slots[35]);
        let ipc = optional_of::<RawOr<IpcMode>>(slots[36]);
        let mac_address = optional_of::<RawOr<String>>(slots[37]);
        let mem_limit = optional_of::<RawOr<MemorySize>>(slots[38]);
        let memswap_limit = optional_of::<RawOr<MemorySize>>(slots[39]);
        let privileged = flag_of(slots[40]);
        let restart = optional_of::<RawOr<RestartMode>>(slots[41]);
        let shm_size = optional_of::<RawOr<MemorySize>>(slots[42]);
        let stdin_open = flag_of(slots[43]);
        let tty = flag_of(slots[44]);
        let user = optional_of::<RawOr<String>>(slots[45]);
        let working_dir = optional_of::<RawOr<String>>(slots[46]);
        let oom_score_adj = optional_of::<i16>(slots[47]);
        let group_add = list_of::<String>(slots[48]);
        if build is Err {
            Err(build->Err_0)
        } else if cap_add is Err {
            Err(cap_add->Err_0)
        } else if cap_drop is Err {
            Err(cap_drop->Err_0)
        } else if command is Err {
            Err(command->Err_0)
        } else if cgroup_parent is Err {
            Err(cgroup_parent->Err_0)
        } else if container_name is Err {
            Err(container_name->Err_0)
        } else if devices is Err {
            Err(devices->Err_0)
        } else if depends_on is Err {
            Err(depends_on->Err_0)
        } else if dns is Err {
            Err(dns->Err_0)
        } else if dns_search is Err {
            Err(dns_search->Err_0)
        } else if tmpfs is Err {
            Err(tmpfs->Err_0)
        } else if entrypoint is Err {
            Err(entrypoint->Err_0)
        } else if env_files is Err {
            Err(env_files->Err_0)
        } else if environment is Err {
            Err(environment->Err_0)
        } else if expose is Err {
            Err(expose->Err_0)
        } else if extends is Err {
            Err(extends->Err_0)
        } else if external_links is Err {
            Err(external_links->Err_0)
        } else if extra_hosts is Err {
            Err(extra_hosts->Err_0)
        } else if healthcheck is Err {
            Err(healthcheck->Err_0)
        } else if image is Err {
            Err(image->Err_0)
        } else if labels is Err {
            Err(labels->Err_0)
        } else if links is Err {
            Err(links->Err_0)
        } else if logging is Err {
            Err(logging->Err_0)
        } else if network_mode is Err {
            Err(network_mode->Err_0)
        } else if networks is Err {
            Err(networks->Err_0)
        } else if pid is Err {
            Err(pid->Err_0)
        } else if ports is Err {
            Err(ports->Err_0)
        } else if security_opt is Err {
            Err(security_opt->Err_0)
        } else if stop_signal is Err {
            Err(stop_signal->Err_0)
        } else if volumes is Err {
            Err(volumes->Err_0)
        } else if volumes_from is Err {
            Err(volumes_from->Err_0)
        } else if volume_driver is Err {
            Err(volume_driver->Err_0)
        } else if cpu_shares is Err {
            Err(cpu_shares->Err_0)
        } else if cpu_quota is Err {
            Err(cpu_quota->Err_0)
        } else if domainname is Err {
            Err(domainname->Err_0)
        } else if hostname is Err {
            Err(hostname->Err_0)
        } else if ipc is Err {
            Err(ipc->Err_0)
        } else if mac_address is Err {
            Err(mac_address->Err_0)
        } else if mem_limit is Err {
            Err(mem_limit->Err_0)
        } else if memswap_limit is Err {
            Err(memswap_limit->Err_0)
        } else if privileged is Err {
            Err(privileged->Err_0)
        } else if restart is Err {
            Err(restart->Err_0)
        } else if shm_size is Err {
            Err(shm_size->Err_0)
        } else if stdin_open is Err {
            Err(stdin_open->Err_0)
        } else if tty is Err {
            Err(tty->Err_0)
        } else if user is Err {
            Err(user->Err_0)
        } else if working_dir is Err {
            Err(working_dir->Err_0)
        } else if oom_score_adj is Err {
            Err(oom_score_adj->Err_0)
        } else if group_add is Err {
            Err(group_add->Err_0)
        } else {
            Ok(
                ServiceView {
                    build: build->Ok_0,
                    cap_add: cap_add->Ok_0,
                    cap_drop: cap_drop->Ok_0,
                    command: command->Ok_0,
                    cgroup_parent: cgroup_parent->Ok_0,
                    container_name: container_name->Ok_0,
                    devices: devices->Ok_0,
                    depends_on: depends_on->Ok_0,
                    dns: dns->Ok_0,
                    dns_search: dns_search->Ok_0,
                    tmpfs: tmpfs->Ok_0,
                    entrypoint: entrypoint->Ok_0,
                    env_files: env_files->Ok_0,
                    environment: environment->Ok_0,
                    expose: expose->Ok_0,
                    extends: extends->Ok_0,
                    external_links: external_links->Ok_0,
                    extra_hosts: extra_hosts->Ok_0,
                    healthcheck: healthcheck->Ok_0,
                    image: image->Ok_0,
                    labels: labels->Ok_0,
                    links: links->Ok_0,
                    logging: logging->Ok_0,
                    network_mode: network_mode->Ok_0,
                    networks: networks->Ok_0,
                    pid: pid->Ok_0,
                    ports: ports->Ok_0,
                    security_opt: security_opt->Ok_0,
                    stop_signal: stop_signal->Ok_0,
                    volumes: volumes->Ok_0,
                    volumes_from: volumes_from->Ok_0,
                    volume_driver: volume_driver->Ok_0,
                    cpu_shares: cpu_shares->Ok_0,
                    cpu_quota: cpu_quota->Ok_0,
                    domainname: domainname->Ok_0,
                    hostname: hostname->Ok_0,
                    ipc: ipc->Ok_0,
                    mac_address: mac_address->Ok_0,
                    mem_limit: mem_limit->Ok_0,
                    memswap_limit: memswap_limit->Ok_0,
                    privileged: privileged->Ok_0,
                    restart: restart->Ok_0,
                    shm_size: shm_size->Ok_0,
                    stdin_open: stdin_open->Ok_0,
                    tty: tty->Ok_0,
                    user: user->Ok_0,
                    working_dir: working_dir->Ok_0,
                    oom_score_adj: oom_score_adj->Ok_0,
                    group_add: group_add->Ok_0,
                },
            )
        }
    }

    /// The fields with the nodes that write them.  A field that is left out
    /// has no node.
    pub open spec fn field_nodes(v: ServiceView) -> Seq<(Seq<char>, Option<NodeView>)> {
        seq![
            ("build"@, optional_node::<Build>(v.build)),
            ("cap_add"@, list_node::<RawOr<String>>(v.cap_add)),
            ("cap_drop"@, list_node::<RawOr<String>>(v.cap_drop)),
            ("command"@, optional_node::<CommandLine>(v.command)),
            ("cgroup_parent"@, optional_node::<RawOr<String>>(v.cgroup_parent)),
            ("container_name"@, optional_node::<RawOr<String>>(v.container_name)),
            ("devices"@, list_node::<RawOr<AliasedName>>(v.devices)),
            ("depends_on"@, list_node::<RawOr<String>>(v.depends_on)),
            ("dns"@, list_node::<RawOr<String>>(v.dns)),
            ("dns_search"@, list_node::<RawOr<String>>(v.dns_search)),
            ("tmpfs"@, list_node::<RawOr<String>>(v.tmpfs)),
            ("entrypoint"@, optional_node::<CommandLine>(v.entrypoint)),
            ("env_file"@, list_node::<RawOr<String>>(v.env_files)),
            ("environment"@, map_node::<Option<RawOr<String>>>(v.environment)),
            ("expose"@, list_node::<RawOr<String>>(v.expose)),
            ("extends"@, optional_node::<Extends>(v.extends)),
            ("external_links"@, list_node::<RawOr<AliasedName>>(v.external_links)),
            ("extra_hosts"@, list_node::<RawOr<HostMapping>>(v.extra_hosts)),
            ("healthcheck"@, optional_node::<Healthcheck>(v.healthcheck)),
            ("image"@, optional_node::<RawOr<Image>>(v.image)),
            ("labels"@, map_node::<RawOr<String>>(v.labels)),
            ("links"@, list_node::<RawOr<AliasedName>>(v.links)),
            ("logging"@, optional_node::<Logging>(v.logging)),
            ("network_mode"@, optional_node::<RawOr<NetworkMode>>(v.network_mode)),
            ("networks"@, map_node::<NetworkInterface>(v.networks)),
            ("pid"@, optional_node::<RawOr<PidMode>>(v.pid)),
            ("ports"@, list_node::<RawOr<PortMapping>>(v.ports)),
            ("security_opt"@, list_node::<RawOr<String>>(v.security_opt)),
            ("stop_signal"@, optional_node::<RawOr<String>>(v.stop_signal)),
            ("volumes"@, list_node::<RawOr<VolumeMount>>(v.volumes)),
            ("volumes_from"@, list_node::<RawOr<VolumesFrom>>(v.volumes_from)),
            ("volume_driver"@, optional_node::<RawOr<String>>(v.volume_driver)),
            ("cpu_shares"@, optional_node::<u32>(v.cpu_shares)),
            ("cpu_quota"@, optional_node::<u32>(v.cpu_quota)),
            ("domainname"@, optional_node::<RawOr<String>>(v.domainname)),
            ("hostname"@, optional_node::<RawOr<String>>(v.hostname)),
            ("ipc"@, optional_node::<RawOr<IpcMode>>(v.ipc)),
            ("mac_address"@, optional_node::<RawOr<String>>(v.mac_address)),
            ("mem_limit"@, optional_node::<RawOr<MemorySize>>(v.mem_limit)),
            ("memswap_limit"@, optional_node::<RawOr<MemorySize>>(v.memswap_limit)),
            ("privileged"@, flag_node(v.privileged)),
            ("restart"@, optional_node::<RawOr<RestartMode>>(v.restart)),
            ("shm_size"@, optional_node::<RawOr<MemorySize>>(v.shm_size)),
            ("stdin_open"@, flag_node(v.stdin_open)),
            ("tty"@, flag_node(v.tty)),
            ("user"@, optional_node::<RawOr<String>>(v.user)),
            ("working_dir"@, optional_node::<RawOr<String>>(v.working_dir)),
            ("oom_score_adj"@, optional_node::<i16>(v.oom_score_adj)),
            ("group_add"@, list_node::<String>(v.group_add)),
        ]
    }

    /// Read the fields from the mapping `node`.
    fn from_mapping(node: &Node) -> (r: Result<Service, Error>)
        ensures
            decode_result(r) == match slots_of(node.deep_view(), Self::field_names(), "a service"@) {
                Err(e) => Err(e),
                Ok(slots) => Self::from_slots(slots),
            },
    {
        let names: Vec<&str> = vec!["build", "cap_add", "cap_drop", "command", "cgroup_parent", "container_name", "devices", "depends_on", "dns", "dns_search", "tmpfs", "entrypoint", "env_file", "environment", "expose", "extends", "external_links", "extra_hosts", "healthcheck", "image", "labels", "links", "logging", "network_mode", "networks", "pid", "ports", "security_opt", "stop_signal", "volumes", "volumes_from", "volume_driver", "cpu_shares", "cpu_quota", "domainname", "hostname", "ipc", "mac_address", "mem_limit", "memswap_limit", "privileged", "restart", "shm_size", "stdin_open", "tty", "user", "working_dir", "oom_score_adj", "group_add"];
        proof {
            assert(names_view(names@) =~= Self::field_names());
        }
        let slots = match struct_slots(node, &names, "a service") {
            Ok(slots) => slots,
            Err(e) => {
                return Err(e);
            },
        };
        let build = match decode_optional::<Build>(slots[0]) {
            Ok(v) => v,
            Err(e) => {
                return Err(e);
            },
        };
        let cap_add = match decode_list::<RawOr<String>>(slots[1]) {
            Ok(v) => v,
            Err(e) => {
                return Err(e);
            },
        };
        let cap_drop = match decode_list::<RawOr<String>>(slots[2]) {
            Ok(v) => v,
            Err(e) => {
                return Err(e);
            },
        };
        let command = match decode_optional::<CommandLine>(slots[3]) {
            Ok(v) => v,
            Err(e) => {
                return Err(e);
            },
        };
        let cgroup_parent = match decode_optional::<RawOr<String>>(slots[4]) {
            Ok(v) => v,
            Err(e) => {
                return Err(e);
            },
        };
        let container_name = match decode_optional::<RawOr<String>>(slots[5]) {
            Ok(v) => v,
            Err(e) => {
                return Err(e);
            },
        };
        let devices = match decode_list::<RawOr<AliasedName>>(slots[6]) {
            Ok(v) => v,
            Err(e) => {
                return Err(e);
            },
        };
        let depends_on = match decode_list::<RawOr<String>>(slots[7]) {
            Ok(v) => v,
            Err(e) => {
                return Err(e);
            },
        };
        let dns = match decode_item_or_list::<String>(slots[8]) {
            Ok(v) => v,
            Err(e) => {
                return Err(e);
            },
        };
        let dns_search = match decode_item_or_list::<String>(slots[9]) {
            Ok(v) => v,
            Err(e) => {
                return Err(e);
            },
        };
        let tmpfs = match decode_item_or_list::<String>(slots[10]) {
            Ok(v) => v,
            Err(e) => {
                return Err(e);
            },
        };
        let entrypoint = match decode_optional::<CommandLine>(slots[11]) {
            Ok(v) => v,
            Err(e) => {
                return Err(e);
            },
        };
        let env_files = match decode_item_or_list::<String>(slots[12]) {
            Ok(v) => v,
            Err(e) => {
                return Err(e);
            },
        };
        let environment = match decode_map_or_key_optional_value_list(slots[13]) {
            Ok(v) => v,
            Err(e) => {
                return Err(e);
            },
        };
        let expose = match decode_list::<RawOr<String>>(slots[14]) {
            Ok(v) => v,
            Err(e) => {
                return Err(e);
            },
        };
        let extends = match decode_optional::<Extends>(slots[15]) {
            Ok(v) => v,
            Err(e) => {
                return Err(e);
            },
        };
        let external_links = match decode_list::<RawOr<AliasedName>>(slots[16]) {
            Ok(v) => v,
            Err(e) => {
                return Err(e);
            },
        };
        let extra_hosts = match decode_list::<RawOr<HostMapping>>(slots[17]) {
            Ok(v) => v,
            Err(e) => {
                return Err(e);
            },
        };
        let healthcheck = match decode_optional::<Healthcheck>(slots[18]) {
            Ok(v) => v,
            Err(e) => {
                return Err(e);
            },
        };
        let image = match decode_optional::<RawOr<Image>>(slots[19]) {
            Ok(v) => v,
            Err(e) => {
                return Err(e);
            },
        };
        let labels = match decode_map_or_key_value_list(slots[20]) {
            Ok(v) => v,
            Err(e) => {
                return Err(e);
            },
        };
        let links = match decode_list::<RawOr<AliasedName>>(slots[21]) {
            Ok(v) => v,
            Err(e) => {
                return Err(e);
            },
        };
        let logging = match decode_optional::<Logging>(slots[22]) {
            Ok(v) => v,
            Err(e) => {
                return Err(e);
            },
        };
        let network_mode = match decode_optional::<RawOr<NetworkMode>>(slots[23]) {
            Ok(v) => v,
            Err(e) => {
                return Err(e);
            },
        };
        let networks = match decode_map_or_default_list::<NetworkInterface>(slots[24]) {
            Ok(v) => v,
            Err(e) => {
                return Err(e);
            },
        };
        let pid = match decode_optional::<RawOr<PidMode>>(slots[25]) {
            Ok(v) => v,
            Err(e) => {
                return Err(e);
            },
        };
        let ports = match decode_list::<RawOr<PortMapping>>(slots[26]) {
            Ok(v) => v,
            Err(e) => {
                return Err(e);
            },
        };
        let security_opt = match decode_list::<RawOr<String>>(slots[27]) {
            Ok(v) => v,
            Err(e) => {
                return Err(e);
            },
        };
        let stop_signal = match decode_optional::<RawOr<String>>(slots[28]) {
            Ok(v) => v,
            Err(e) => {
                return Err(e);
            },
        };
        let volumes = match decode_list::<RawOr<VolumeMount>>(slots[29]) {
            Ok(v) => v,
            Err(e) => {
                return Err(e);
            },
        };
        let volumes_from = match decode_list::<RawOr<VolumesFrom>>(slots[30]) {
            Ok(v) => v,
            Err(e) => {
                return Err(e);
            },
        };
        let volume_driver = match decode_optional::<RawOr<String>>(slots[31]) {
            Ok(v) => v,
            Err(e) => {
                return Err(e);
            },
        };
        let cpu_shares = match decode_optional::<u32>(slots[32]) {
            Ok(v) => v,
            Err(e) => {
                return Err(e);
            },
        };
        let cpu_quota = match decode_optional::<u32>(slots[33]) {
            Ok(v) => v,
            Err(e) => {
                return Err(e);
            },
        };
        let domainname = match decode_optional::<RawOr<String>>(slots[34]) {
            Ok(v) => v,
            Err(e) => {
                return Err(e);
            },
        };
        let hostname = match decode_optional::<RawOr<String>>(slots[35]) {
            Ok(v) => v,
            Err(e) => {
                return Err(e);
            },
        };
        let ipc = match decode_optional::<RawOr<IpcMode>>(slots[36]) {
            Ok(v) => v,
            Err(e) => {
                return Err(e);
            },
        };
        let mac_address = match decode_optional::<RawOr<String>>(slots[37]) {
            Ok(v) => v,
            Err(e) => {
                return Err(e);
            },
        };
        let mem_limit = match decode_optional::<RawOr<MemorySize>>(slots[38]) {
            Ok(v) => v,
            Err(e) => {
                return Err(e);
            },
        };
        let memswap_limit = match decode_optional::<RawOr<MemorySize>>(slots[39]) {
            Ok(v) => v,
            Err(e) => {
                return Err(e);
            },
        };
        let privileged = match decode_flag(slots[40]) {
            Ok(v) => v,
            Err(e) => {
                return Err(e);
            },
        };
        let restart = match decode_optional::<RawOr<RestartMode>>(slots[41]) {
            Ok(v) => v,
            Err(e) => {
                return Err(e);
            },
        };
        let shm_size = match decode_optional::<RawOr<MemorySize>>(slots[42]) {
            Ok(v) => v,
            Err(e) => {
                return Err(e);
            },
        };
        let stdin_open = match decode_flag(slots[43]) {
            Ok(v) => v,
            Err(e) => {
                return Err(e);
            },
        };
        let tty = match decode_flag(slots[44]) {
            Ok(v) => v,
            Err(e) => {
                return Err(e);
            },
        };
        let user = match decode_optional::<RawOr<String>>(slots[45]) {
            Ok(v) => v,
            Err(e) => {
                return Err(e);
            },
        };
        let working_dir = match decode_optional::<RawOr<String>>(slots[46]) {
            Ok(v) => v,
            Err(e) => {
                return Err(e);
            },
        };
        let oom_score_adj = match decode_optional::<i16>(slots[47]) {
            Ok(v) => v,
            Err(e) => {
                return Err(e);
            },
        };
        let group_add = match decode_list::<String>(slots[48]) {
            Ok(v) => v,
            Err(e) => {
                return Err(e);
            },
        };
        Ok(Service { build, cap_add, cap_drop, command, cgroup_parent, container_name, devices, depends_on, dns, dns_search, tmpfs, entrypoint, env_files, environment, expose, extends, external_links, extra_hosts, healthcheck, image, labels, links, logging, network_mode, networks, pid, ports, security_opt, stop_signal, volumes, volumes_from, volume_driver, cpu_shares, cpu_quota, domainname, hostname, ipc, mac_address, mem_limit, memswap_limit, privileged, restart, shm_size, stdin_open, tty, user, working_dir, oom_score_adj, group_add })
    }

    /// Write the fields as a mapping.
    #[verifier::rlimit(100)]
    fn to_mapping(&self) -> (r: Node)
        requires
            Self::fields_writable(self.deep_view()),
        ensures
            r.deep_view() == NodeView::Mapping(present(Self::field_nodes(self.deep_view()))),
    {
        let mut fields: Vec<(&str, Option<Node>)> = Vec::new();
        fields.push(("build", encode_optional::<Build>(&self.build)));
        fields.push(("cap_add", encode_list::<RawOr<String>>(&self.cap_add)));
        fields.push(("cap_drop", encode_list::<RawOr<String>>(&self.cap_drop)));
        fields.push(("command", encode_optional::<CommandLine>(&self.command)));
        fields.push(("cgroup_parent", encode_optional::<RawOr<String>>(&self.cgroup_parent)));
        fields.push(("container_name", encode_optional::<RawOr<String>>(&self.container_name)));
        fields.push(("devices", encode_list::<RawOr<AliasedName>>(&self.devices)));
        fields.push(("depends_on", encode_list::<RawOr<String>>(&self.depends_on)));
        fields.push(("dns", encode_list::<RawOr<String>>(&self.dns)));
        fields.push(("dns_search", encode_list::<RawOr<String>>(&self.dns_search)));
        fields.push(("tmpfs", encode_list::<RawOr<String>>(&self.tmpfs)));
        fields.push(("entrypoint", encode_optional::<CommandLine>(&self.entrypoint)));
        fields.push(("env_file", encode_list::<RawOr<String>>(&self.env_files)));
        fields.push(("environment", encode_map::<Option<RawOr<String>>>(&self.environment)));
        fields.push(("expose", encode_list::<RawOr<String>>(&self.expose)));
        fields.push(("extends", encode_optional::<Extends>(&self.extends)));
        fields.push(("external_links", encode_list::<RawOr<AliasedName>>(&self.external_links)));
        fields.push(("extra_hosts", encode_list::<RawOr<HostMapping>>(&self.extra_hosts)));
        fields.push(("healthcheck", encode_optional::<Healthcheck>(&self.healthcheck)));
        fields.push(("image", encode_optional::<RawOr<Image>>(&self.image)));
        fields.push(("labels", encode_map::<RawOr<String>>(&self.labels)));
        fields.push(("links", encode_list::<RawOr<AliasedName>>(&self.links)));
        fields.push(("logging", encode_optional::<Logging>(&self.logging)));
        fields.push(("network_mode", encode_optional::<RawOr<NetworkMode>>(&self.network_mode)));
        fields.push(("networks", encode_map::<NetworkInterface>(&self.networks)));
        fields.push(("pid", encode_optional::<RawOr<PidMode>>(&self.pid)));
        fields.push(("ports", encode_list::<RawOr<PortMapping>>(&self.ports)));
        fields.push(("security_opt", encode_list::<RawOr<String>>(&self.security_opt)));
        fields.push(("stop_signal", encode_optional::<RawOr<String>>(&self.stop_signal)));
        fields.push(("volumes", encode_list::<RawOr<VolumeMount>>(&self.volumes)));
        fields.push(("volumes_from", encode_list::<RawOr<VolumesFrom>>(&self.volumes_from)));
        fields.push(("volume_driver", encode_optional::<RawOr<String>>(&self.volume_driver)));
        fields.push(("cpu_shares", encode_optional::<u32>(&self.cpu_shares)));
        fields.push(("cpu_quota", encode_optional::<u32>(&self.cpu_quota)));
        fields.push(("domainname", encode_optional::<RawOr<String>>(&self.domainname)));
        fields.push(("hostname", encode_optional::<RawOr<String>>(&self.hostname)));
        fields.push(("ipc", encode_optional::<RawOr<IpcMode>>(&self.ipc)));
        fields.push(("mac_address", encode_optional::<RawOr<String>>(&self.mac_address)));
        fields.push(("mem_limit", encode_optional::<RawOr<MemorySize>>(&self.mem_limit)));
        fields.push(("memswap_limit", encode_optional::<RawOr<MemorySize>>(&self.memswap_limit)));
        fields.push(("privileged", encode_flag(&self.privileged)));
        fields.push(("restart", encode_optional::<RawOr<RestartMode>>(&self.restart)));
        fields.push(("shm_size", encode_optional::<RawOr<MemorySize>>(&self.shm_size)));
        fields.push(("stdin_open", encode_flag(&self.stdin_open)));
        fields.push(("tty", encode_flag(&self.tty)));
        fields.push(("user", encode_optional::<RawOr<String>>(&self.user)));
        fields.push(("working_dir", encode_optional::<RawOr<String>>(&self.working_dir)));
        fields.push(("oom_score_adj", encode_optional::<i16>(&self.oom_score_adj)));
        fields.push(("group_add", encode_list::<String>(&self.group_add)));
        proof {
            assert(fields_view(fields@) =~= Self::field_nodes(self.deep_view()));
        }
        mapping_of(fields)
    }

    /// Can every field be written?
    pub open spec fn fields_writable(v: ServiceView) -> bool {
        &&& Option::<Build>::writable(v.build)
        &&& Vec::<RawOr<String>>::writable(v.cap_add)
        &&& Vec::<RawOr<String>>::writable(v.cap_drop)
        &&& Option::<CommandLine>::writable(v.command)
        &&& Option::<RawOr<String>>::writable(v.cgroup_parent)
        &&& Option::<RawOr<String>>::writable(v.container_name)
        &&& Vec::<RawOr<AliasedName>>::writable(v.devices)
        &&& Vec::<RawOr<String>>::writable(v.depends_on)
        &&& Vec::<RawOr<String>>::writable(v.dns)
        &&& Vec::<RawOr<String>>::writable(v.dns_search)
        &&& Vec::<RawOr<String>>::writable(v.tmpfs)
        &&& Option::<CommandLine>::writable(v.entrypoint)
        &&& Vec::<RawOr<String>>::writable(v.env_files)
        &&& SortedMap::<Option<RawOr<String>>>::writable(v.environment)
        &&& Vec::<RawOr<String>>::writable(v.expose)
        &&& Option::<Extends>::writable(v.extends)
        &&& Vec::<RawOr<AliasedName>>::writable(v.external_links)
        &&& Vec::<RawOr<HostMapping>>::writable(v.extra_hosts)
        &&& Option::<Healthcheck>::writable(v.healthcheck)
        &&& Option::<RawOr<Image>>::writable(v.image)
        &&& SortedMap::<RawOr<String>>::writable(v.labels)
        &&& Vec::<RawOr<AliasedName>>::writable(v.links)
        &&& Option::<Logging>::writable(v.logging)
        &&& Option::<RawOr<NetworkMode>>::writable(v.network_mode)
        &&& SortedMap::<NetworkInterface>::writable(v.networks)
        &&& Option::<RawOr<PidMode>>::writable(v.pid)
        &&& Vec::<RawOr<PortMapping>>::writable(v.ports)
        &&& Vec::<RawOr<String>>::writable(v.security_opt)
        &&& Option::<RawOr<String>>::writable(v.stop_signal)
        &&& Vec::<RawOr<VolumeMount>>::writable(v.volumes)
        &&& Vec::<RawOr<VolumesFrom>>::writable(v.volumes_from)
        &&& Option::<RawOr<String>>::writable(v.volume_driver)
        &&& Option::<u32>::writable(v.cpu_shares)
        &&& Option::<u32>::writable(v.cpu_quota)
        &&& Option::<RawOr<String>>::writable(v.domainname)
        &&& Option::<RawOr<String>>::writable(v.hostname)
        &&& Option::<RawOr<IpcMode>>::writable(v.ipc)
        &&& Option::<RawOr<String>>::writable(v.mac_address)
        &&& Option::<RawOr<MemorySize>>::writable(v.mem_limit)
        &&& Option::<RawOr<MemorySize>>::writable(v.memswap_limit)
        &&& true
        &&& Option::<RawOr<RestartMode>>::writable(v.restart)
        &&& Option::<RawOr<MemorySize>>::writable(v.shm_size)
        &&& true
        &&& true
        &&& Option::<RawOr<String>>::writable(v.user)
        &&& Option::<RawOr<String>>::writable(v.working_dir)
        &&& Option::<i16>::writable(v.oom_score_adj)
        &&& Vec::<String>::writable(v.group_add)
    }

    /// Can every field be written?
    fn all_writable(&self) -> (r: bool)
        ensures
            r == Self::fields_writable(self.deep_view()),
    {
        if !self.build.is_writable() {
            return false;
        }
        if !self.cap_add.is_writable() {
            return false;
        }
        if !self.cap_drop.is_writable() {
            return false;
        }
        if !self.command.is_writable() {
            return false;
        }
        if !self.cgroup_parent.is_writable() {
            return false;
        }
        if !self.container_name.is_writable() {
            return false;
        }
        if !self.devices.is_writable() {
            return false;
        }
        if !self.depends_on.is_writable() {
            return false;
        }
        if !self.dns.is_writable() {
            return false;
        }
        if !self.dns_search.is_writable() {
            return false;
        }
        if !self.tmpfs.is_writable() {
            return false;
        }
        if !self.entrypoint.is_writable() {
            return false;
        }
        if !self.env_files.is_writable() {
            return false;
        }
        if !self.environment.is_writable() {
            return false;
        }
        if !self.expose.is_writable() {
            return false;
        }
        if !self.extends.is_writable() {
            return false;
        }
        if !self.external_links.is_writable() {
            return false;
        }
        if !self.extra_hosts.is_writable() {
            return false;
        }
        if !self.healthcheck.is_writable() {
            return false;
        }
        if !self.image.is_writable() {
            return false;
        }
        if !self.labels.is_writable() {
            return false;
        }
        if !self.links.is_writable() {
            return false;
        }
        if !self.logging.is_writable() {
            return false;
        }
        if !self.network_mode.is_writable() {
            return false;
        }
        if !self.networks.is_writable() {
            return false;
        }
        if !self.pid.is_writable() {
            return false;
        }
        if !self.ports.is_writable() {
            return false;
        }
        if !self.security_opt.is_writable() {
            return false;
        }
        if !self.stop_signal.is_writable() {
            return false;
        }
        if !self.volumes.is_writable() {
            return false;
        }
        if !self.volumes_from.is_writable() {
            return false;
        }
        if !self.volume_driver.is_writable() {
            return false;
        }
        if !self.cpu_shares.is_writable() {
            return false;
        }
        if !self.cpu_quota.is_writable() {
            return false;
        }
        if !self.domainname.is_writable() {
            return false;
        }
        if !self.hostname.is_writable() {
            return false;
        }
        if !self.ipc.is_writable() {
            return false;
        }
        if !self.mac_address.is_writable() {
            return false;
        }
        if !self.mem_limit.is_writable() {
            return false;
        }
        if !self.memswap_limit.is_writable() {
            return false;
        }
        if !self.restart.is_writable() {
            return false;
        }
        if !self.shm_size.is_writable() {
            return false;
        }
        if !self.user.is_writable() {
            return false;
        }
        if !self.working_dir.is_writable() {
            return false;
        }
        if !self.oom_score_adj.is_writable() {
            return false;
        }
        if !self.group_add.is_writable() {
            return false;
        }
        true
    }
}

impl FromNode for Service {
    open spec fn decoded(node: NodeView) -> Result<ServiceView, ErrorView> {
        match slots_of(node, Self::field_names(), "a service"@) {
            Err(e) => Err(e),
            Ok(slots) => Self::from_slots(slots),
        }
    }

    fn from_node(node: &Node) -> (r: Result<Service, Error>) {
        Self::from_mapping(node)
    }
}

impl ToNode for Service {
    open spec fn writable(v: ServiceView) -> bool {
        Self::fields_writable(v)
    }

    open spec fn encoded(v: ServiceView) -> NodeView {
        NodeView::Mapping(present(Self::field_nodes(v)))
    }

    fn to_node(&self) -> (r: Node) {
        self.to_mapping()
    }

    fn is_writable(&self) -> (r: bool) {
        self.all_writable()
    }
}

impl Duplicate for Service {
    fn duplicate(&self) -> (r: Service) {
        Service {
            build: self.build.duplicate(),
            cap_add: self.cap_add.duplicate(),
            cap_drop: self.cap_drop.duplicate(),
            command: self.command.duplicate(),
            cgroup_parent: self.cgroup_parent.duplicate(),
            container_name: self.container_name.duplicate(),
            devices: self.devices.duplicate(),
            depends_on: self.depends_on.duplicate(),
            dns: self.dns.duplicate(),
            dns_search: self.dns_search.duplicate(),
            tmpfs: self.tmpfs.duplicate(),
            entrypoint: self.entrypoint.duplicate(),
            env_files: self.env_files.duplicate(),
            environment: self.environment.duplicate(),
            expose: self.expose.duplicate(),
            extends: self.extends.duplicate(),
            external_links: self.external_links.duplicate(),
            extra_hosts: self.extra_hosts.duplicate(),
            healthcheck: self.healthcheck.duplicate(),
            image: self.image.duplicate(),
            labels: self.labels.duplicate(),
            links: self.links.duplicate(),
            logging: self.logging.duplicate(),
            network_mode: self.network_mode.duplicate(),
            networks: self.networks.duplicate(),
            pid: self.pid.duplicate(),
            ports: self.ports.duplicate(),
            security_opt: self.security_opt.duplicate(),
            stop_signal: self.stop_signal.duplicate(),
            volumes: self.volumes.duplicate(),
            volumes_from: self.volumes_from.duplicate(),
            volume_driver: self.volume_driver.duplicate(),
            cpu_shares: self.cpu_shares.duplicate(),
            cpu_quota: self.cpu_quota.duplicate(),
            domainname: self.domainname.duplicate(),
            hostname: self.hostname.duplicate(),
            ipc: self.ipc.duplicate(),
            mac_address: self.mac_address.duplicate(),
            mem_limit: self.mem_limit.duplicate(),
            memswap_limit: self.memswap_limit.duplicate(),
            privileged: self.privileged.duplicate(),
            restart: self.restart.duplicate(),
            shm_size: self.shm_size.duplicate(),
            stdin_open: self.stdin_open.duplicate(),
            tty: self.tty.duplicate(),
            user: self.user.duplicate(),
            working_dir: self.working_dir.duplicate(),
            oom_score_adj: self.oom_score_adj.duplicate(),
            group_add: self.group_add.duplicate(),
        }
    }
}

impl Clone for Service {
    fn clone(&self) -> (r: Self)
        ensures
            r.deep_view() == self.deep_view(),
    {
        self.duplicate()
    }
}

/// The fields are merged one by one.
impl MergeOverride for Service {
    open spec fn merged(base: ServiceView, ovr: ServiceView) -> ServiceView {
        ServiceView {
            build: Option::<Build>::merged(base.build, ovr.build),
            cap_add: Vec::<RawOr<String>>::merged(base.cap_add, ovr.cap_add),
            cap_drop: Vec::<RawOr<String>>::merged(base.cap_drop, ovr.cap_drop),
            command: Option::<CommandLine>::merged(base.command, ovr.command),
            cgroup_parent: Option::<RawOr<String>>::merged(base.cgroup_parent, ovr.cgroup_parent),
            container_name: Option::<RawOr<String>>::merged(base.container_name, ovr.container_name),
            devices: Vec::<RawOr<AliasedName>>::merged(base.devices, ovr.devices),
            depends_on: Vec::<RawOr<String>>::merged(base.depends_on, ovr.depends_on),
            dns: Vec::<RawOr<String>>::merged(base.dns, ovr.dns),
            dns_search: Vec::<RawOr<String>>::merged(base.dns_search, ovr.dns_search),
            tmpfs: Vec::<RawOr<String>>::merged(base.tmpfs, ovr.tmpfs),
            entrypoint: Option::<CommandLine>::merged(base.entrypoint, ovr.entrypoint),
            env_files: Vec::<RawOr<String>>::merged(base.env_files, ovr.env_files),
            environment: SortedMap::<Option<RawOr<String>>>::merged(base.environment, ovr.environment),
            expose: Vec::<RawOr<String>>::merged(base.expose, ovr.expose),
            extends: Option::<Extends>::merged(base.extends, ovr.extends),
            external_links: Vec::<RawOr<AliasedName>>::merged(base.external_links, ovr.external_links),
            extra_hosts: Vec::<RawOr<HostMapping>>::merged(base.extra_hosts, ovr.extra_hosts),
            healthcheck: Option::<Healthcheck>::merged(base.healthcheck, ovr.healthcheck),
            image: Option::<RawOr<Image>>::merged(base.image, ovr.image),
            labels: SortedMap::<RawOr<String>>::merged(base.labels, ovr.labels),
            links: Vec::<RawOr<AliasedName>>::merged(base.links, ovr.links),
            logging: Option::<Logging>::merged(base.logging, ovr.logging),
            network_mode: Option::<RawOr<NetworkMode>>::merged(base.network_mode, ovr.network_mode),
            networks: SortedMap::<NetworkInterface>::merged(base.networks, ovr.networks),
            pid: Option::<RawOr<PidMode>>::merged(base.pid, ovr.pid),
            ports: Vec::<RawOr<PortMapping>>::merged(base.ports, ovr.ports),
            security_opt: Vec::<RawOr<String>>::merged(base.security_opt, ovr.security_opt),
            stop_signal: Option::<RawOr<String>>::merged(base.stop_signal, ovr.stop_signal),
            volumes: Vec::<RawOr<VolumeMount>>::merged(base.volumes, ovr.volumes),
            volumes_from: Vec::<RawOr<VolumesFrom>>::merged(base.volumes_from, ovr.volumes_from),
            volume_driver: Option::<RawOr<String>>::merged(base.volume_driver, ovr.volume_driver),
            cpu_shares: Option::<u32>::merged(base.cpu_shares, ovr.cpu_shares),
            cpu_quota: Option::<u32>::merged(base.cpu_quota, ovr.cpu_quota),
            domainname: Option::<RawOr<String>>::merged(base.domainname, ovr.domainname),
            hostname: Option::<RawOr<String>>::merged(base.hostname, ovr.hostname),
            ipc: Option::<RawOr<IpcMode>>::merged(base.ipc, ovr.ipc),
            mac_address: Option::<RawOr<String>>::merged(base.mac_address, ovr.mac_address),
            mem_limit: Option::<RawOr<MemorySize>>::merged(base.mem_limit, ovr.mem_limit),
            memswap_limit: Option::<RawOr<MemorySize>>::merged(base.memswap_limit, ovr.memswap_limit),
            privileged: bool::merged(base.privileged, ovr.privileged),
            restart: Option::<RawOr<RestartMode>>::merged(base.restart, ovr.restart),
            shm_size: Option::<RawOr<MemorySize>>::merged(base.shm_size, ovr.shm_size),
            stdin_open: bool::merged(base.stdin_open, ovr.stdin_open),
            tty: bool::merged(base.tty, ovr.tty),
            user: Option::<RawOr<String>>::merged(base.user, ovr.user),
            working_dir: Option::<RawOr<String>>::merged(base.working_dir, ovr.working_dir),
            oom_score_adj: Option::<i16>::merged(base.oom_score_adj, ovr.oom_score_adj),
            group_add: Vec::<String>::merged(base.group_add, ovr.group_add),
        }
    }

    open spec fn sequence_free(v: ServiceView) -> bool {
        &&& Option::<Build>::sequence_free(v.build)
        &&& Vec::<RawOr<String>>::sequence_free(v.cap_add)
        &&& Vec::<RawOr<String>>::sequence_free(v.cap_drop)
        &&& Option::<CommandLine>::sequence_free(v.command)
        &&& Option::<RawOr<String>>::sequence_free(v.cgroup_parent)
        &&& Option::<RawOr<String>>::sequence_free(v.container_name)
        &&& Vec::<RawOr<AliasedName>>::sequence_free(v.devices)
        &&& Vec::<RawOr<String>>::sequence_free(v.depends_on)
        &&& Vec::<RawOr<String>>::sequence_free(v.dns)
        &&& Vec::<RawOr<String>>::sequence_free(v.dns_search)
        &&& Vec::<RawOr<String>>::sequence_free(v.tmpfs)
        &&& Option::<CommandLine>::sequence_free(v.entrypoint)
        &&& Vec::<RawOr<String>>::sequence_free(v.env_files)
        &&& SortedMap::<Option<RawOr<String>>>::sequence_free(v.environment)
        &&& Vec::<RawOr<String>>::sequence_free(v.expose)
        &&& Option::<Extends>::sequence_free(v.extends)
        &&& Vec::<RawOr<AliasedName>>::sequence_free(v.external_links)
        &&& Vec::<RawOr<HostMapping>>::sequence_free(v.extra_hosts)
        &&& Option::<Healthcheck>::sequence_free(v.healthcheck)
        &&& Option::<RawOr<Image>>::sequence_free(v.image)
        &&& SortedMap::<RawOr<String>>::sequence_free(v.labels)
        &&& Vec::<RawOr<AliasedName>>::sequence_free(v.links)
        &&& Option::<Logging>::sequence_free(v.logging)
        &&& Option::<RawOr<NetworkMode>>::sequence_free(v.network_mode)
        &&& SortedMap::<NetworkInterface>::sequence_free(v.networks)
        &&& Option::<RawOr<PidMode>>::sequence_free(v.pid)
        &&& Vec::<RawOr<PortMapping>>::sequence_free(v.ports)
        &&& Vec::<RawOr<String>>::sequence_free(v.security_opt)
        &&& Option::<RawOr<String>>::sequence_free(v.stop_signal)
        &&& Vec::<RawOr<VolumeMount>>::sequence_free(v.volumes)
        &&& Vec::<RawOr<VolumesFrom>>::sequence_free(v.volumes_from)
        &&& Option::<RawOr<String>>::sequence_free(v.volume_driver)
        &&& Option::<u32>::sequence_free(v.cpu_shares)
        &&& Option::<u32>::sequence_free(v.cpu_quota)
        &&& Option::<RawOr<String>>::sequence_free(v.domainname)
        &&& Option::<RawOr<String>>::sequence_free(v.hostname)
        &&& Option::<RawOr<IpcMode>>::sequence_free(v.ipc)
        &&& Option::<RawOr<String>>::sequence_free(v.mac_address)
        &&& Option::<RawOr<MemorySize>>::sequence_free(v.mem_limit)
        &&& Option::<RawOr<MemorySize>>::sequence_free(v.memswap_limit)
        &&& bool::sequence_free(v.privileged)
        &&& Option::<RawOr<RestartMode>>::sequence_free(v.restart)
        &&& Option::<RawOr<MemorySize>>::sequence_free(v.shm_size)
        &&& bool::sequence_free(v.stdin_open)
        &&& bool::sequence_free(v.tty)
        &&& Option::<RawOr<String>>::sequence_free(v.user)
        &&& Option::<RawOr<String>>::sequence_free(v.working_dir)
        &&& Option::<i16>::sequence_free(v.oom_score_adj)
        &&& Vec::<String>::sequence_free(v.group_add)
    }

    proof fn lemma_merge_with_itself(v: ServiceView) {
        Option::<Build>::lemma_merge_with_itself(v.build);
        Vec::<RawOr<String>>::lemma_merge_with_itself(v.cap_add);
        Vec::<RawOr<String>>::lemma_merge_with_itself(v.cap_drop);
        Option::<CommandLine>::lemma_merge_with_itself(v.command);
        Option::<RawOr<String>>::lemma_merge_with_itself(v.cgroup_parent);
        Option::<RawOr<String>>::lemma_merge_with_itself(v.container_name);
        Vec::<RawOr<AliasedName>>::lemma_merge_with_itself(v.devices);
        Vec::<RawOr<String>>::lemma_merge_with_itself(v.depends_on);
        Vec::<RawOr<String>>::lemma_merge_with_itself(v.dns);
        Vec::<RawOr<String>>::lemma_merge_with_itself(v.dns_search);
        Vec::<RawOr<String>>::lemma_merge_with_itself(v.tmpfs);
        Option::<CommandLine>::lemma_merge_with_itself(v.entrypoint);
        Vec::<RawOr<String>>::lemma_merge_with_itself(v.env_files);
        SortedMap::<Option<RawOr<String>>>::lemma_merge_with_itself(v.environment);
        Vec::<RawOr<String>>::lemma_merge_with_itself(v.expose);
        Option::<Extends>::lemma_merge_with_itself(v.extends);
        Vec::<RawOr<AliasedName>>::lemma_merge_with_itself(v.external_links);
        Vec::<RawOr<HostMapping>>::lemma_merge_with_itself(v.extra_hosts);
        Option::<Healthcheck>::lemma_merge_with_itself(v.healthcheck);
        Option::<RawOr<Image>>::lemma_merge_with_itself(v.image);
        SortedMap::<RawOr<String>>::lemma_merge_with_itself(v.labels);
        Vec::<RawOr<AliasedName>>::lemma_merge_with_itself(v.links);
        Option::<Logging>::lemma_merge_with_itself(v.logging);
        Option::<RawOr<NetworkMode>>::lemma_merge_with_itself(v.network_mode);
        SortedMap::<NetworkInterface>::lemma_merge_with_itself(v.networks);
        Option::<RawOr<PidMode>>::lemma_merge_with_itself(v.pid);
        Vec::<RawOr<PortMapping>>::lemma_merge_with_itself(v.ports);
        Vec::<RawOr<String>>::lemma_merge_with_itself(v.security_opt);
        Option::<RawOr<String>>::lemma_merge_with_itself(v.stop_signal);
        Vec::<RawOr<VolumeMount>>::lemma_merge_with_itself(v.volumes);
        Vec::<RawOr<VolumesFrom>>::lemma_merge_with_itself(v.volumes_from);
        Option::<RawOr<String>>::lemma_merge_with_itself(v.volume_driver);
        Option::<u32>::lemma_merge_with_itself(v.cpu_shares);
        Option::<u32>::lemma_merge_with_itself(v.cpu_quota);
        Option::<RawOr<String>>::lemma_merge_with_itself(v.domainname);
        Option::<RawOr<String>>::lemma_merge_with_itself(v.hostname);
        Option::<RawOr<IpcMode>>::lemma_merge_with_itself(v.ipc);
        Option::<RawOr<String>>::lemma_merge_with_itself(v.mac_address);
        Option::<RawOr<MemorySize>>::lemma_merge_with_itself(v.mem_limit);
        Option::<RawOr<MemorySize>>::lemma_merge_with_itself(v.memswap_limit);
        bool::lemma_merge_with_itself(v.privileged);
        Option::<RawOr<RestartMode>>::lemma_merge_with_itself(v.restart);
        Option::<RawOr<MemorySize>>::lemma_merge_with_itself(v.shm_size);
        bool::lemma_merge_with_itself(v.stdin_open);
        bool::lemma_merge_with_itself(v.tty);
        Option::<RawOr<String>>::lemma_merge_with_itself(v.user);
        Option::<RawOr<String>>::lemma_merge_with_itself(v.working_dir);
        Option::<i16>::lemma_merge_with_itself(v.oom_score_adj);
        Vec::<String>::lemma_merge_with_itself(v.group_add);
    }

    fn merge_override(&self, ovr: &Service) -> (r: Service) {
        Service {
            build: self.build.merge_override(&ovr.build),
            cap_add: self.cap_add.merge_override(&ovr.cap_add),
            cap_drop: self.cap_drop.merge_override(&ovr.cap_drop),
            command: self.command.merge_override(&ovr.command),
            cgroup_parent: self.cgroup_parent.merge_override(&ovr.cgroup_parent),
            container_name: self.container_name.merge_override(&ovr.container_name),
            devices: self.devices.merge_override(&ovr.devices),
            depends_on: self.depends_on.merge_override(&ovr.depends_on),
            dns: self.dns.merge_override(&ovr.dns),
            dns_search: self.dns_search.merge_override(&ovr.dns_search),
            tmpfs: self.tmpfs.merge_override(&ovr.tmpfs),
            entrypoint: self.entrypoint.merge_override(&ovr.entrypoint),
            env_files: self.env_files.merge_override(&ovr.env_files),
            environment: self.environment.merge_override(&ovr.environment),
            expose: self.expose.merge_override(&ovr.expose),
            extends: self.extends.merge_override(&ovr.extends),
            external_links: self.external_links.merge_override(&ovr.external_links),
            extra_hosts: self.extra_hosts.merge_override(&ovr.extra_hosts),
            healthcheck: self.healthcheck.merge_override(&ovr.healthcheck),
            image: self.image.merge_override(&ovr.image),
            labels: self.labels.merge_override(&ovr.labels),
            links: self.links.merge_override(&ovr.links),
            logging: self.logging.merge_override(&ovr.logging),
            network_mode: self.network_mode.merge_override(&ovr.network_mode),
            networks: self.networks.merge_override(&ovr.networks),
            pid: self.pid.merge_override(&ovr.pid),
            ports: self.ports.merge_override(&ovr.ports),
            security_opt: self.security_opt.merge_override(&ovr.security_opt),
            stop_signal: self.stop_signal.merge_override(&ovr.stop_signal),
            volumes: self.volumes.merge_override(&ovr.volumes),
            volumes_from: self.volumes_from.merge_override(&ovr.volumes_from),
            volume_driver: self.volume_driver.merge_override(&ovr.volume_driver),
            cpu_shares: self.cpu_shares.merge_override(&ovr.cpu_shares),
            cpu_quota: self.cpu_quota.merge_override(&ovr.cpu_quota),
            domainname: self.domainname.merge_override(&ovr.domainname),
            hostname: self.hostname.merge_override(&ovr.hostname),
            ipc: self.ipc.merge_override(&ovr.ipc),
            mac_address: self.mac_address.merge_override(&ovr.mac_address),
            mem_limit: self.mem_limit.merge_override(&ovr.mem_limit),
            memswap_limit: self.memswap_limit.merge_override(&ovr.memswap_limit),
            privileged: self.privileged.merge_override(&ovr.privileged),
            restart: self.restart.merge_override(&ovr.restart),
            shm_size: self.shm_size.merge_override(&ovr.shm_size),
            stdin_open: self.stdin_open.merge_override(&ovr.stdin_open),
            tty: self.tty.merge_override(&ovr.tty),
            user: self.user.merge_override(&ovr.user),
            working_dir: self.working_dir.merge_override(&ovr.working_dir),
            oom_score_adj: self.oom_score_adj.merge_override(&ovr.oom_score_adj),
            group_add: self.group_add.merge_override(&ovr.group_add),
        }
    }
}

/// The fields are resolved one by one, in the order in which they are
/// declared.
impl InterpolateAll for Service {
    open spec fn resolved(v: ServiceView, vars: Map<Seq<char>, Seq<char>>) -> Resolution<ServiceView> {
        let r0 = Option::<Build>::resolved(v.build, vars);
        let r1 = Vec::<RawOr<String>>::resolved(v.cap_add, vars);
        let r2 = Vec::<RawOr<String>>::resolved(v.cap_drop, vars);
        let r3 = Option::<CommandLine>::resolved(v.command, vars);
        let r4 = Option::<RawOr<String>>::resolved(v.cgroup_parent, vars);
        let r5 = Option::<RawOr<String>>::resolved(v.container_name, vars);
        let r6 = Vec::<RawOr<AliasedName>>::resolved(v.devices, vars);
        let r7 = Vec::<RawOr<String>>::resolved(v.depends_on, vars);
        let r8 = Vec::<RawOr<String>>::resolved(v.dns, vars);
        let r9 = Vec::<RawOr<String>>::resolved(v.dns_search, vars);
        let r10 = Vec::<RawOr<String>>::resolved(v.tmpfs, vars);
        let r11 = Option::<CommandLine>::resolved(v.entrypoint, vars);
        let r12 = Vec::<RawOr<String>>::resolved(v.env_files, vars);
        let r13 = SortedMap::<Option<RawOr<String>>>::resolved(v.environment, vars);
        let r14 = Vec::<RawOr<String>>::resolved(v.expose, vars);
        let r15 = Option::<Extends>::resolved(v.extends, vars);
        let r16 = Vec::<RawOr<AliasedName>>::resolved(v.external_links, vars);
        let r17 = Vec::<RawOr<HostMapping>>::resolved(v.extra_hosts, vars);
        let r18 = Option::<Healthcheck>::resolved(v.healthcheck, vars);
        let r19 = Option::<RawOr<Image>>::resolved(v.image, vars);
        let r20 = SortedMap::<RawOr<String>>::resolved(v.labels, vars);
        let r21 = Vec::<RawOr<AliasedName>>::resolved(v.links, vars);
        let r22 = Option::<Logging>::resolved(v.logging, vars);
        let r23 = Option::<RawOr<NetworkMode>>::resolved(v.network_mode, vars);
        let r24 = SortedMap::<NetworkInterface>::resolved(v.networks, vars);
        let r25 = Option::<RawOr<PidMode>>::resolved(v.pid, vars);
        let r26 = Vec::<RawOr<PortMapping>>::resolved(v.ports, vars);
        let r27 = Vec::<RawOr<String>>::resolved(v.security_opt, vars);
        let r28 = Option::<RawOr<String>>::resolved(v.stop_signal, vars);
        let r29 = Vec::<RawOr<VolumeMount>>::resolved(v.volumes, vars);
        let r30 = Vec::<RawOr<VolumesFrom>>::resolved(v.volumes_from, vars);
        let r31 = Option::<RawOr<String>>::resolved(v.volume_driver, vars);
        let r32 = Option::<u32>::resolved(v.cpu_shares, vars);
        let r33 = Option::<u32>::resolved(v.cpu_quota, vars);
        let r34 = Option::<RawOr<String>>::resolved(v.domainname, vars);
        let r35 = Option::<RawOr<String>>::resolved(v.hostname, vars);
        let r36 = Option::<RawOr<IpcMode>>::resolved(v.ipc, vars);
        let r37 = Option::<RawOr<String>>::resolved(v.mac_address, vars);
        let r38 = Option::<RawOr<MemorySize>>::resolved(v.mem_limit, vars);
        let r39 = Option::<RawOr<MemorySize>>::resolved(v.memswap_limit, vars);
        let r40 = bool::resolved(v.privileged, vars);
        let r41 = Option::<RawOr<RestartMode>>::resolved(v.restart, vars);
        let r42 = Option::<RawOr<MemorySize>>::resolved(v.shm_size, vars);
        let r43 = bool::resolved(v.stdin_open, vars);
        let r44 = bool::resolved(v.tty, vars);
        let r45 = Option::<RawOr<String>>::resolved(v.user, vars);
        let r46 = Option::<RawOr<String>>::resolved(v.working_dir, vars);
        let r47 = Option::<i16>::resolved(v.oom_score_adj, vars);
        let r48 = Vec::<String>::resolved(v.group_add, vars);
        let ok0 = r0.failure is None;
        let ok1 = ok0 && r1.failure is None;
        let ok2 = ok1 && r2.failure is None;
        let ok3 = ok2 && r3.failure is None;
        let ok4 = ok3 && r4.failure is None;
        let ok5 = ok4 && r5.failure is None;
        let ok6 = ok5 && r6.failure is None;
        let ok7 = ok6 && r7.failure is None;
        let ok8 = ok7 && r8.failure is None;
        let ok9 = ok8 && r9.failure is None;
        let ok10 = ok9 && r10.failure is None;
        let ok11 = ok10 && r11.failure is None;
        let ok12 = ok11 && r12.failure is None;
        let ok13 = ok12 && r13.failure is None;
        let ok14 = ok13 && r14.failure is None;
        let ok15 = ok14 && r15.failure is None;
        let ok16 = ok15 && r16.failure is None;
        let ok17 = ok16 && r17.failure is None;
        let ok18 = ok17 && r18.failure is None;
        let ok19 = ok18 && r19.failure is None;
        let ok20 = ok19 && r20.failure is None;
        let ok21 = ok20 && r21.failure is None;
        let ok22 = ok21 && r22.failure is None;
        let ok23 = ok22 && r23.failure is None;
        let ok24 = ok23 && r24.failure is None;
        let ok25 = ok24 && r25.failure is None;
        let ok26 = ok25 && r26.failure is None;
        let ok27 = ok26 && r27.failure is None;
        let ok28 = ok27 && r28.failure is None;
        let ok29 = ok28 && r29.failure is None;
        let ok30 = ok29 && r30.failure is None;
        let ok31 = ok30 && r31.failure is None;
        let ok32 = ok31 && r32.failure is None;
        let ok33 = ok32 && r33.failure is None;
        let ok34 = ok33 && r34.failure is None;
        let ok35 = ok34 && r35.failure is None;
        let ok36 = ok35 && r36.failure is None;
        let ok37 = ok36 && r37.failure is None;
        let ok38 = ok37 && r38.failure is None;
        let ok39 = ok38 && r39.failure is None;
        let ok40 = ok39 && r40.failure is None;
        let ok41 = ok40 && r41.failure is None;
        let ok42 = ok41 && r42.failure is None;
        let ok43 = ok42 && r43.failure is None;
        let ok44 = ok43 && r44.failure is None;
        let ok45 = ok44 && r45.failure is None;
        let ok46 = ok45 && r46.failure is None;
        let ok47 = ok46 && r47.failure is None;
        let ok48 = ok47 && r48.failure is None;
        Resolution {
            value: ServiceView {
                build: r0.value,
                cap_add: if ok0 {
                    r1.value
                } else {
                    v.cap_add
                },
                cap_drop: if ok1 {
                    r2.value
                } else {
                    v.cap_drop
                },
                command: if ok2 {
                    r3.value
                } else {
                    v.command
                },
                cgroup_parent: if ok3 {
                    r4.value
                } else {
                    v.cgroup_parent
                },
                container_name: if ok4 {
                    r5.value
                } else {
                    v.container_name
                },
                devices: if ok5 {
                    r6.value
                } else {
                    v.devices
                },
                depends_on: if ok6 {
                    r7.value
                } else {
                    v.depends_on
                },
                dns: if ok7 {
                    r8.value
                } else {
                    v.dns
                },
                dns_search: if ok8 {
                    r9.value
                } else {
                    v.dns_search
                },
                tmpfs: if ok9 {
                    r10.value
                } else {
                    v.tmpfs
                },
                entrypoint: if ok10 {
                    r11.value
                } else {
                    v.entrypoint
                },
                env_files: if ok11 {
                    r12.value
                } else {
                    v.env_files
                },
                environment: if ok12 {
                    r13.value
                } else {
                    v.environment
                },
                expose: if ok13 {
                    r14.value
                } else {
                    v.expose
                },
                extends: if ok14 {
                    r15.value
                } else {
                    v.extends
                },
                external_links: if ok15 {
                    r16.value
                } else {
                    v.external_links
                },
                extra_hosts: if ok16 {
                    r17.value
                } else {
                    v.extra_hosts
                },
                healthcheck: if ok17 {
                    r18.value
                } else {
                    v.healthcheck
                },
                image: if ok18 {
                    r19.value
                } else {
                    v.image
                },
                labels: if ok19 {
                    r20.value
                } else {
                    v.labels
                },
                links: if ok20 {
                    r21.value
                } else {
                    v.links
                },
                logging: if ok21 {
                    r22.value
                } else {
                    v.logging
                },
                network_mode: if ok22 {
                    r23.value
                } else {
                    v.network_mode
                },
                networks: if ok23 {
                    r24.value
                } else {
                    v.networks
                },
                pid: if ok24 {
                    r25.value
                } else {
                    v.pid
                },
                ports: if ok25 {
                    r26.value
                } else {
                    v.ports
                },
                security_opt: if ok26 {
                    r27.value
                } else {
                    v.security_opt
                },
                stop_signal: if ok27 {
                    r28.value
                } else {
                    v.stop_signal
                },
                volumes: if ok28 {
                    r29.value
                } else {
                    v.volumes
                },
                volumes_from: if ok29 {
                    r30.value
                } else {
                    v.volumes_from
                },
                volume_driver: if ok30 {
                    r31.value
                } else {
                    v.volume_driver
                },
                cpu_shares: if ok31 {
                    r32.value
                } else {
                    v.cpu_shares
                },
                cpu_quota: if ok32 {
                    r33.value
                } else {
                    v.cpu_quota
                },
                domainname: if ok33 {
                    r34.value
                } else {
                    v.domainname
                },
                hostname: if ok34 {
                    r35.value
                } else {
                    v.hostname
                },
                ipc: if ok35 {
                    r36.value
                } else {
                    v.ipc
                },
                mac_address: if ok36 {
                    r37.value
                } else {
                    v.mac_address
                },
                mem_limit: if ok37 {
                    r38.value
                } else {
                    v.mem_limit
                },
                memswap_limit: if ok38 {
                    r39.value
                } else {
                    v.memswap_limit
                },
                privileged: if ok39 {
                    r40.value
                } else {
                    v.privileged
                },
                restart: if ok40 {
                    r41.value
                } else {
                    v.restart
                },
                shm_size: if ok41 {
                    r42.value
                } else {
                    v.shm_size
                },
                stdin_open: if ok42 {
                    r43.value
                } else {
                    v.stdin_open
                },
                tty: if ok43 {
                    r44.value
                } else {
                    v.tty
                },
                user: if ok44 {
                    r45.value
                } else {
                    v.user
                },
                working_dir: if ok45 {
                    r46.value
                } else {
                    v.working_dir
                },
                oom_score_adj: if ok46 {
                    r47.value
                } else {
                    v.oom_score_adj
                },
                group_add: if ok47 {
                    r48.value
                } else {
                    v.group_add
                },
            },
            failure: if !ok0 {
                r0.failure
            } else if !ok1 {
                r1.failure
            } else if !ok2 {
                r2.failure
            } else if !ok3 {
                r3.failure
            } else if !ok4 {
                r4.failure
            } else if !ok5 {
                r5.failure
            } else if !ok6 {
                r6.failure
            } else if !ok7 {
                r7.failure
            } else if !ok8 {
                r8.failure
            } else if !ok9 {
                r9.failure
            } else if !ok10 {
                r10.failure
            } else if !ok11 {
                r11.failure
            } else if !ok12 {
                r12.failure
            } else if !ok13 {
                r13.failure
            } else if !ok14 {
                r14.failure
            } else if !ok15 {
                r15.failure
            } else if !ok16 {
                r16.failure
            } else if !ok17 {
                r17.failure
            } else if !ok18 {
                r18.failure
            } else if !ok19 {
                r19.failure
            } else if !ok20 {
                r20.failure
            } else if !ok21 {
                r21.failure
            } else if !ok22 {
                r22.failure
            } else if !ok23 {
                r23.failure
            } else if !ok24 {
                r24.failure
            } else if !ok25 {
                r25.failure
            } else if !ok26 {
                r26.failure
            } else if !ok27 {
                r27.failure
            } else if !ok28 {
                r28.failure
            } else if !ok29 {
                r29.failure
            } else if !ok30 {
                r30.failure
            } else if !ok31 {
                r31.failure
            } else if !ok32 {
                r32.failure
            } else if !ok33 {
                r33.failure
            } else if !ok34 {
                r34.failure
            } else if !ok35 {
                r35.failure
            } else if !ok36 {
                r36.failure
            } else if !ok37 {
                r37.failure
            } else if !ok38 {
                r38.failure
            } else if !ok39 {
                r39.failure
            } else if !ok40 {
                r40.failure
            } else if !ok41 {
                r41.failure
            } else if !ok42 {
                r42.failure
            } else if !ok43 {
                r43.failure
            } else if !ok44 {
                r44.failure
            } else if !ok45 {
                r45.failure
            } else if !ok46 {
                r46.failure
            } else if !ok47 {
                r47.failure
            } else if !ok48 {
                r48.failure
            } else {
                None
            },
        }
    }

    #[verifier::rlimit(100)]
    proof fn lemma_resolved_stays(
        v: ServiceView,
        vars: Map<Seq<char>, Seq<char>>,
        again: Map<Seq<char>, Seq<char>>,
    ) {
        Option::<Build>::lemma_resolved_stays(v.build, vars, again);
        Vec::<RawOr<String>>::lemma_resolved_stays(v.cap_add, vars, again);
        Vec::<RawOr<String>>::lemma_resolved_stays(v.cap_drop, vars, again);
        Option::<CommandLine>::lemma_resolved_stays(v.command, vars, again);
        Option::<RawOr<String>>::lemma_resolved_stays(v.cgroup_parent, vars, again);
        Option::<RawOr<String>>::lemma_resolved_stays(v.container_name, vars, again);
        Vec::<RawOr<AliasedName>>::lemma_resolved_stays(v.devices, vars, again);
        Vec::<RawOr<String>>::lemma_resolved_stays(v.depends_on, vars, again);
        Vec::<RawOr<String>>::lemma_resolved_stays(v.dns, vars, again);
        Vec::<RawOr<String>>::lemma_resolved_stays(v.dns_search, vars, again);
        Vec::<RawOr<String>>::lemma_resolved_stays(v.tmpfs, vars, again);
        Option::<CommandLine>::lemma_resolved_stays(v.entrypoint, vars, again);
        Vec::<RawOr<String>>::lemma_resolved_stays(v.env_files, vars, again);
        SortedMap::<Option<RawOr<String>>>::lemma_resolved_stays(v.environment, vars, again);
        Vec::<RawOr<String>>::lemma_resolved_stays(v.expose, vars, again);
        Option::<Extends>::lemma_resolved_stays(v.extends, vars, again);
        Vec::<RawOr<AliasedName>>::lemma_resolved_stays(v.external_links, vars, again);
        Vec::<RawOr<HostMapping>>::lemma_resolved_stays(v.extra_hosts, vars, again);
        Option::<Healthcheck>::lemma_resolved_stays(v.healthcheck, vars, again);
        Option::<RawOr<Image>>::lemma_resolved_stays(v.image, vars, again);
        SortedMap::<RawOr<String>>::lemma_resolved_stays(v.labels, vars, again);
        Vec::<RawOr<AliasedName>>::lemma_resolved_stays(v.links, vars, again);
        Option::<Logging>::lemma_resolved_stays(v.logging, vars, again);
        Option::<RawOr<NetworkMode>>::lemma_resolved_stays(v.network_mode, vars, again);
        SortedMap::<NetworkInterface>::lemma_resolved_stays(v.networks, vars, again);
        Option::<RawOr<PidMode>>::lemma_resolved_stays(v.pid, vars, again);
        Vec::<RawOr<PortMapping>>::lemma_resolved_stays(v.ports, vars, again);
        Vec::<RawOr<String>>::lemma_resolved_stays(v.security_opt, vars, again);
        Option::<RawOr<String>>::lemma_resolved_stays(v.stop_signal, vars, again);
        Vec::<RawOr<VolumeMount>>::lemma_resolved_stays(v.volumes, vars, again);
        Vec::<RawOr<VolumesFrom>>::lemma_resolved_stays(v.volumes_from, vars, again);
        Option::<RawOr<String>>::lemma_resolved_stays(v.volume_driver, vars, again);
        Option::<u32>::lemma_resolved_stays(v.cpu_shares, vars, again);
        Option::<u32>::lemma_resolved_stays(v.cpu_quota, vars, again);
        Option::<RawOr<String>>::lemma_resolved_stays(v.domainname, vars, again);
        Option::<RawOr<String>>::lemma_resolved_stays(v.hostname, vars, again);
        Option::<RawOr<IpcMode>>::lemma_resolved_stays(v.ipc, vars, again);
        Option::<RawOr<String>>::lemma_resolved_stays(v.mac_address, vars, again);
        Option::<RawOr<MemorySize>>::lemma_resolved_stays(v.mem_limit, vars, again);
        Option::<RawOr<MemorySize>>::lemma_resolved_stays(v.memswap_limit, vars, again);
        bool::lemma_resolved_stays(v.privileged, vars, again);
        Option::<RawOr<RestartMode>>::lemma_resolved_stays(v.restart, vars, again);
        Option::<RawOr<MemorySize>>::lemma_resolved_stays(v.shm_size, vars, again);
        bool::lemma_resolved_stays(v.stdin_open, vars, again);
        bool::lemma_resolved_stays(v.tty, vars, again);
        Option::<RawOr<String>>::lemma_resolved_stays(v.user, vars, again);
        Option::<RawOr<String>>::lemma_resolved_stays(v.working_dir, vars, again);
        Option::<i16>::lemma_resolved_stays(v.oom_score_adj, vars, again);
        Vec::<String>::lemma_resolved_stays(v.group_add, vars, again);
    }

    fn interpolate_all<E: Environment>(&mut self, env: &E) -> (r: Result<(), InterpolationError>) {
        match self.build.interpolate_all(env) {
            Err(e) => {
                return Err(e);
            },
            Ok(_) => {},
        }
        match self.cap_add.interpolate_all(env) {
            Err(e) => {
                return Err(e);
            },
            Ok(_) => {},
        }
        match self.cap_drop.interpolate_all(env) {
            Err(e) => {
                return Err(e);
            },
            Ok(_) => {},
        }
        match self.command.interpolate_all(env) {
            Err(e) => {
                return Err(e);
            },
            Ok(_) => {},
        }
        match self.cgroup_parent.interpolate_all(env) {
            Err(e) => {
                return Err(e);
            },
            Ok(_) => {},
        }
        match self.container_name.interpolate_all(env) {
            Err(e) => {
                return Err(e);
            },
            Ok(_) => {},
        }
        match self.devices.interpolate_all(env) {
            Err(e) => {
                return Err(e);
            },
            Ok(_) => {},
        }
        match self.depends_on.interpolate_all(env) {
            Err(e) => {
                return Err(e);
            },
            Ok(_) => {},
        }
        match self.dns.interpolate_all(env) {
            Err(e) => {
                return Err(e);
            },
            Ok(_) => {},
        }
        match self.dns_search.interpolate_all(env) {
            Err(e) => {
                return Err(e);
            },
            Ok(_) => {},
        }
        match self.tmpfs.interpolate_all(env) {
            Err(e) => {
                return Err(e);
            },
            Ok(_) => {},
        }
        match self.entrypoint.interpolate_all(env) {
            Err(e) => {
                return Err(e);
            },
            Ok(_) => {},
        }
        match self.env_files.interpolate_all(env) {
            Err(e) => {
                return Err(e);
            },
            Ok(_) => {},
        }
        match self.environment.interpolate_all(env) {
            Err(e) => {
                return Err(e);
            },
            Ok(_) => {},
        }
        match self.expose.interpolate_all(env) {
            Err(e) => {
                return Err(e);
            },
            Ok(_) => {},
        }
        match self.extends.interpolate_all(env) {
            Err(e) => {
                return Err(e);
            },
            Ok(_) => {},
        }
        match self.external_links.interpolate_all(env) {
            Err(e) => {
                return Err(e);
            },
            Ok(_) => {},
        }
        match self.extra_hosts.interpolate_all(env) {
            Err(e) => {
                return Err(e);
            },
            Ok(_) => {},
        }
        match self.healthcheck.interpolate_all(env) {
            Err(e) => {
                return Err(e);
            },
            Ok(_) => {},
        }
        match self.image.interpolate_all(env) {
            Err(e) => {
                return Err(e);
            },
            Ok(_) => {},
        }
        match self.labels.interpolate_all(env) {
            Err(e) => {
                return Err(e);
            },
            Ok(_) => {},
        }
        match self.links.interpolate_all(env) {
            Err(e) => {
                return Err(e);
            },
            Ok(_) => {},
        }
        match self.logging.interpolate_all(env) {
            Err(e) => {
                return Err(e);
            },
            Ok(_) => {},
        }
        match self.network_mode.interpolate_all(env) {
            Err(e) => {
                return Err(e);
            },
            Ok(_) => {},
        }
        match self.networks.interpolate_all(env) {
            Err(e) => {
                return Err(e);
            },
            Ok(_) => {},
        }
        match self.pid.interpolate_all(env) {
            Err(e) => {
                return Err(e);
            },
            Ok(_) => {},
        }
        match self.ports.interpolate_all(env) {
            Err(e) => {
                return Err(e);
            },
            Ok(_) => {},
        }
        match self.security_opt.interpolate_all(env) {
            Err(e) => {
                return Err(e);
            },
            Ok(_) => {},
        }
        match self.stop_signal.interpolate_all(env) {
            Err(e) => {
                return Err(e);
            },
            Ok(_) => {},
        }
        match self.volumes.interpolate_all(env) {
            Err(e) => {
                return Err(e);
            },
            Ok(_) => {},
        }
        match self.volumes_from.interpolate_all(env) {
            Err(e) => {
                return Err(e);
            },
            Ok(_) => {},
        }
        match self.volume_driver.interpolate_all(env) {
            Err(e) => {
                return Err(e);
            },
            Ok(_) => {},
        }
        match self.cpu_shares.interpolate_all(env) {
            Err(e) => {
                return Err(e);
            },
            Ok(_) => {},
        }
        match self.cpu_quota.interpolate_all(env) {
            Err(e) => {
                return Err(e);
            },
            Ok(_) => {},
        }
        match self.domainname.interpolate_all(env) {
            Err(e) => {
                return Err(e);
            },
            Ok(_) => {},
        }
        match self.hostname.interpolate_all(env) {
            Err(e) => {
                return Err(e);
            },
            Ok(_) => {},
        }
        match self.ipc.interpolate_all(env) {
            Err(e) => {
                return Err(e);
            },
            Ok(_) => {},
        }
        match self.mac_address.interpolate_all(env) {
            Err(e) => {
                return Err(e);
            },
            Ok(_) => {},
        }
        match self.mem_limit.interpolate_all(env) {
            Err(e) => {
                return Err(e);
            },
            Ok(_) => {},
        }
        match self.memswap_limit.interpolate_all(env) {
            Err(e) => {
                return Err(e);
            },
            Ok(_) => {},
        }
        match self.privileged.interpolate_all(env) {
            Err(e) => {
                return Err(e);
            },
            Ok(_) => {},
        }
        match self.restart.interpolate_all(env) {
            Err(e) => {
                return Err(e);
            },
            Ok(_) => {},
        }
        match self.shm_size.interpolate_all(env) {
            Err(e) => {
                return Err(e);
            },
            Ok(_) => {},
        }
        match self.stdin_open.interpolate_all(env) {
            Err(e) => {
                return Err(e);
            },
            Ok(_) => {},
        }
        match self.tty.interpolate_all(env) {
            Err(e) => {
                return Err(e);
            },
            Ok(_) => {},
        }
        match self.user.interpolate_all(env) {
            Err(e) => {
                return Err(e);
            },
            Ok(_) => {},
        }
        match self.working_dir.interpolate_all(env) {
            Err(e) => {
                return Err(e);
            },
            Ok(_) => {},
        }
        match self.oom_score_adj.interpolate_all(env) {
            Err(e) => {
                return Err(e);
            },
            Ok(_) => {},
        }
        match self.group_add.interpolate_all(env) {
            Err(e) => {
                return Err(e);
            },
            Ok(_) => {},
        }
        Ok(())
    }
}

impl DefaultValue for Service {
    open spec fn default_model() -> ServiceView {
        ServiceView {
            build: None,
            cap_add: Seq::empty(),
            cap_drop: Seq::empty(),
            command: None,
            cgroup_parent: None,
            container_name: None,
            devices: Seq::empty(),
            depends_on: Seq::empty(),
            dns: Seq::empty(),
            dns_search: Seq::empty(),
            tmpfs: Seq::empty(),
            entrypoint: None,
            env_files: Seq::empty(),
            environment: Map::empty(),
            expose: Seq::empty(),
            extends: None,
            external_links: Seq::empty(),
            extra_hosts: Seq::empty(),
            healthcheck: None,
            image: None,
            labels: Map::empty(),
            links: Seq::empty(),
            logging: None,
            network_mode: None,
            networks: Map::empty(),
            pid: None,
            ports: Seq::empty(),
            security_opt: Seq::empty(),
            stop_signal: None,
            volumes: Seq::empty(),
            volumes_from: Seq::empty(),
            volume_driver: None,
            cpu_shares: None,
            cpu_quota: None,
            domainname: None,
            hostname: None,
            ipc: None,
            mac_address: None,
            mem_limit: None,
            memswap_limit: None,
            privileged: false,
            restart: None,
            shm_size: None,
            stdin_open: false,
            tty: false,
            user: None,
            working_dir: None,
            oom_score_adj: None,
            group_add: Seq::empty(),
        }
    }

    fn default_value() -> (r: Service) {
        let r = Service {
            build: None,
            cap_add: Vec::new(),
            cap_drop: Vec::new(),
            command: None,
            cgroup_parent: None,
            container_name: None,
            devices: Vec::new(),
            depends_on: Vec::new(),
            dns: Vec::new(),
            dns_search: Vec::new(),
            tmpfs: Vec::new(),
            entrypoint: None,
            env_files: Vec::new(),
            environment: empty_map(),
            expose: Vec::new(),
            extends: None,
            external_links: Vec::new(),
            extra_hosts: Vec::new(),
            healthcheck: None,
            image: None,
            labels: empty_map(),
            links: Vec::new(),
            logging: None,
            network_mode: None,
            networks: empty_map(),
            pid: None,
            ports: Vec::new(),
            security_opt: Vec::new(),
            stop_signal: None,
            volumes: Vec::new(),
            volumes_from: Vec::new(),
            volume_driver: None,
            cpu_shares: None,
            cpu_quota: None,
            domainname: None,
            hostname: None,
            ipc: None,
            mac_address: None,
            mem_limit: None,
            memswap_limit: None,
            privileged: false,
            restart: None,
            shm_size: None,
            stdin_open: false,
            tty: false,
            user: None,
            working_dir: None,
            oom_score_adj: None,
            group_add: Vec::new(),
        };
        proof {
            assert(r.cap_add.deep_view() =~= Seq::empty());
            assert(r.cap_drop.deep_view() =~= Seq::empty());
            assert(r.devices.deep_view() =~= Seq::empty());
            assert(r.depends_on.deep_view() =~= Seq::empty());
            assert(r.dns.deep_view() =~= Seq::empty());
            assert(r.dns_search.deep_view() =~= Seq::empty());
            assert(r.tmpfs.deep_view() =~= Seq::empty());
            assert(r.env_files.deep_view() =~= Seq::empty());
            assert(r.expose.deep_view() =~= Seq::empty());
            assert(r.external_links.deep_view() =~= Seq::empty());
            assert(r.extra_hosts.deep_view() =~= Seq::empty());
            assert(r.links.deep_view() =~= Seq::empty());
            assert(r.ports.deep_view() =~= Seq::empty());
            assert(r.security_opt.deep_view() =~= Seq::empty());
            assert(r.volumes.deep_view() =~= Seq::empty());
            assert(r.volumes_from.deep_view() =~= Seq::empty());
            assert(r.group_add.deep_view() =~= Seq::empty());
        }
        r
    }

    fn is_default(&self) -> (r: bool) {
        proof {
            assert(self.cap_add.len() == 0 <==> self.cap_add.deep_view() =~= Seq::empty());
            assert(self.cap_drop.len() == 0 <==> self.cap_drop.deep_view() =~= Seq::empty());
            assert(self.devices.len() == 0 <==> self.devices.deep_view() =~= Seq::empty());
            assert(self.depends_on.len() == 0 <==> self.depends_on.deep_view() =~= Seq::empty());
            assert(self.dns.len() == 0 <==> self.dns.deep_view() =~= Seq::empty());
            assert(self.dns_search.len() == 0 <==> self.dns_search.deep_view() =~= Seq::empty());
            assert(self.tmpfs.len() == 0 <==> self.tmpfs.deep_view() =~= Seq::empty());
            assert(self.env_files.len() == 0 <==> self.env_files.deep_view() =~= Seq::empty());
            assert(self.expose.len() == 0 <==> self.expose.deep_view() =~= Seq::empty());
            assert(self.external_links.len() == 0 <==> self.external_links.deep_view() =~= Seq::empty());
            assert(self.extra_hosts.len() == 0 <==> self.extra_hosts.deep_view() =~= Seq::empty());
            assert(self.links.len() == 0 <==> self.links.deep_view() =~= Seq::empty());
            assert(self.ports.len() == 0 <==> self.ports.deep_view() =~= Seq::empty());
            assert(self.security_opt.len() == 0 <==> self.security_opt.deep_view() =~= Seq::empty());
            assert(self.volumes.len() == 0 <==> self.volumes.deep_view() =~= Seq::empty());
            assert(self.volumes_from.len() == 0 <==> self.volumes_from.deep_view() =~= Seq::empty());
            assert(self.group_add.len() == 0 <==> self.group_add.deep_view() =~= Seq::empty());
        }
        self.build.is_none()
            && self.cap_add.len() == 0
            && self.cap_drop.len() == 0
            && self.command.is_none()
            && self.cgroup_parent.is_none()
            && self.container_name.is_none()
            && self.devices.len() == 0
            && self.depends_on.len() == 0
            && self.dns.len() == 0
            && self.dns_search.len() == 0
            && self.tmpfs.len() == 0
            && self.entrypoint.is_none()
            && self.env_files.len() == 0
            && self.environment.has_no_entries()
            && self.expose.len() == 0
            && self.extends.is_none()
            && self.external_links.len() == 0
            && self.extra_hosts.len() == 0
            && self.healthcheck.is_none()
            && self.image.is_none()
            && self.labels.has_no_entries()
            && self.links.len() == 0
            && self.logging.is_none()
            && self.network_mode.is_none()
            && self.networks.has_no_entries()
            && self.pid.is_none()
            && self.ports.len() == 0
            && self.security_opt.len() == 0
            && self.stop_signal.is_none()
            && self.volumes.len() == 0
            && self.volumes_from.len() == 0
            && self.volume_driver.is_none()
            && self.cpu_shares.is_none()
            && self.cpu_quota.is_none()
            && self.domainname.is_none()
            && self.hostname.is_none()
            && self.ipc.is_none()
            && self.mac_address.is_none()
            && self.mem_limit.is_none()
            && self.memswap_limit.is_none()
            && !self.privileged
            && self.restart.is_none()
            && self.shm_size.is_none()
            && !self.stdin_open
            && !self.tty
            && self.user.is_none()
            && self.working_dir.is_none()
            && self.oom_score_adj.is_none()
            && self.group_add.len() == 0
    }
}

impl Default for Service {
    fn default() -> (r: Self)
        ensures
            r.deep_view() == Self::default_model(),
    {
        Self::default_value()
    }
}

/// The paths that the entries of `env_file` name, from first to last.  An
/// entry that still refers to variables has no path.
pub open spec fn env_paths(files: Seq<RawOrView<Seq<char>>>) -> Result<Seq<Seq<char>>, ErrorView>
    decreases files.len(),
{
    if files.len() == 0 {
        Ok(Seq::empty())
    } else {
        match env_paths(files.drop_last()) {
            Err(e) => Err(e),
            Ok(front) => match files.last() {
                RawOrView::Value(path) => Ok(front.push(path)),
                RawOrView::Raw(s) => Err(ErrorView::InterpolationDisabled(s)),
            },
        }
    }
}

/// An entry among the first that has no path leaves the whole without
/// paths.
proof fn lemma_env_paths_failure_stays(files: Seq<RawOrView<Seq<char>>>, k: int)
    requires
        0 <= k <= files.len(),
    ensures
        env_paths(files.take(k)) is Err ==> env_paths(files) == env_paths(files.take(k)),
    decreases files.len() - k,
{
    if k < files.len() {
        assert(files.take(k + 1).drop_last() == files.take(k));
        lemma_env_paths_failure_stays(files, k + 1);
    } else {
        assert(files.take(k) == files);
    }
}

/// The variables that the env files `files` define together: a later file
/// replaces what an earlier one defined.
pub open spec fn env_of_files(files: Seq<Map<Seq<char>, Option<Seq<char>>>>) -> Map<
    Seq<char>,
    Option<RawOrView<Seq<char>>>,
>
    decreases files.len(),
{
    if files.len() == 0 {
        Map::empty()
    } else {
        env_of_files(files.drop_last()).union_prefer_right(literal_environment(files.last()))
    }
}

impl Service {
    /// The paths of the env files of this service, as they are written:
    /// relative to the directory of the file.
    pub fn env_file_paths(&self) -> (r: Result<Vec<String>, Error>)
        ensures
            match env_paths(self.deep_view().env_files) {
                Ok(paths) => r is Ok && r->Ok_0.deep_view() == paths,
                Err(e) => r is Err && r->Err_0.deep_view() == e,
            },
    {
        let ghost files = self.env_files.deep_view();
        let mut out: Vec<String> = Vec::new();
        let mut i: usize = 0;
        proof {
            assert(files.take(0) == Seq::<RawOrView<Seq<char>>>::empty());
            assert(out.deep_view() =~= Seq::<Seq<char>>::empty());
        }
        while i < self.env_files.len()
            invariant
                0 <= i <= self.env_files.len(),
                files == self.env_files.deep_view(),
                files == self.deep_view().env_files,
                env_paths(files.take(i as int)) == Ok::<_, ErrorView>(out.deep_view()),
            decreases self.env_files.len() - i,
        {
            proof {
                assert(files.take(i + 1).drop_last() == files.take(i as int));
                assert(files.take(i + 1).last() == self.env_files@[i as int].deep_view());
                lemma_env_paths_failure_stays(files, i + 1);
            }
            let ghost before = out.deep_view();
            match self.env_files[i].value() {
                Ok(path) => {
                    out.push(path.clone());
                    proof {
                        assert(out.deep_view() =~= before.push(path@));
                    }
                },
                Err(e) => {
                    return Err(Error::from_interpolation(e));
                },
            }
            i += 1;
        }
        proof {
            assert(files.take(self.env_files.len() as int) == files);
        }
        Ok(out)
    }

    /// Take the variables of the env files of this service into its
    /// environment.  `files` holds the files that `env_file` names, read
    /// from where [`Service::env_file_paths`] says, in the same order.
    ///
    /// A later file replaces what an earlier one defined, the environment
    /// of the service replaces what the files defined, and the service
    /// names no env files afterwards.
    pub fn inline_all(&mut self, files: &Vec<EnvFile>)
        ensures
            final(self).deep_view() == (ServiceView {
                environment: env_of_files(files.deep_view()).union_prefer_right(
                    old(self).deep_view().environment,
                ),
                env_files: Seq::empty(),
                ..old(self).deep_view()
            }),
    {
        let ghost all = files.deep_view();
        let mut new_env: SortedMap<Option<RawOr<String>>> = empty_map();
        let mut i: usize = 0;
        proof {
            assert(all.take(0) == Seq::<Map<Seq<char>, Option<Seq<char>>>>::empty());
        }
        while i < files.len()
            invariant
                0 <= i <= files.len(),
                all == files.deep_view(),
                new_env.deep_view() == env_of_files(all.take(i as int)),
            decreases files.len() - i,
        {
            proof {
                assert(all.take(i + 1).drop_last() == all.take(i as int));
                assert(all.take(i + 1).last() == files@[i as int].deep_view());
            }
            match files[i].to_environment() {
                Ok(env) => {
                    new_env.absorb(&env);
                },
                Err(_) => {},
            }
            i += 1;
        }
        proof {
            assert(all.take(files.len() as int) == all);
        }
        new_env.absorb(&self.environment);
        self.environment = new_env;
        self.env_files = Vec::new();
        proof {
            assert(self.env_files.deep_view() =~= Seq::<RawOrView<Seq<char>>>::empty());
        }
    }
}

} // verus!
