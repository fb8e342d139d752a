//! vHost — one row per ESXi host.

use vstd::prelude::*;
use super::{
    append_cells,
    columns_view,
    hundredths_value,
    opt_bool_value,
    opt_hundredths,
    opt_num_value,
    opt_text_value,
    row_view,
    rows_view,
    text_cell,
    Cell,
    CellValue,
    Column,
    ColumnKind,
};
use super::common::{
    div_round,
    gib_hundredths,
    gib_of,
    no_name_error,
    scaled_div_round,
    opt_gib,
    ratio,
    ratio_of,
    totals_for,
    totals_for_of,
    totals_entries,
    tally,
    tally_fits,
    vm_totals_by_host,
    whole,
    whole_of,
    HostVmTotals,
    TotalsView,
};
use super::snapshot::mos_view;
use crate::text::{chars_of, join, joined, parse_i64, parse_i64_str, str_eq, strings_view};
use crate::vcenter::soap::{strs_view, array_prop_of, bool_prop_of, i64_prop_of, str_prop_of, ManagedObject, MoView};
use crate::vcenter::xml::{opt_str_view, find_by_text, first_with_text, text_at_path, Element, XNode};

verus! {

/// The sheet's columns, labels as RVTools writes them.
pub open spec fn column_spec() -> Seq<(Seq<char>, ColumnKind)> {
    seq![
        ("Host"@, ColumnKind::Text),
        ("Config status"@, ColumnKind::Text),
        ("in Maintenance Mode"@, ColumnKind::Bool),
        ("Connection state"@, ColumnKind::Text),
        ("Power state"@, ColumnKind::Text),
        ("CPU Model"@, ColumnKind::Text),
        ("Speed"@, ColumnKind::Number),
        ("HT Available"@, ColumnKind::Bool),
        ("HT Active"@, ColumnKind::Bool),
        ("# CPU"@, ColumnKind::Number),
        ("Cores per CPU"@, ColumnKind::Number),
        ("# Cores"@, ColumnKind::Number),
        ("# CPU Threads"@, ColumnKind::Number),
        ("CPU usage %"@, ColumnKind::Number),
        ("# Memory GiB"@, ColumnKind::Number),
        ("Memory Tiering Type"@, ColumnKind::Text),
        ("DRAM GiB"@, ColumnKind::Number),
        ("NVMe Tier GiB"@, ColumnKind::Number),
        ("Memory usage %"@, ColumnKind::Number),
        ("# NICs"@, ColumnKind::Number),
        ("# HBAs"@, ColumnKind::Number),
        ("# VMs total"@, ColumnKind::Number),
        ("# VMs"@, ColumnKind::Number),
        ("VMs per Core"@, ColumnKind::Number),
        ("# vCPUs"@, ColumnKind::Number),
        ("vCPUs per Core"@, ColumnKind::Number),
        ("vRAM GiB"@, ColumnKind::Number),
        ("VMotion support"@, ColumnKind::Bool),
        ("Storage VMotion support"@, ColumnKind::Bool),
        ("Current EVC"@, ColumnKind::Text),
        ("Max EVC"@, ColumnKind::Text),
        ("Current CPU power man. policy"@, ColumnKind::Text),
        ("ESX Version"@, ColumnKind::Text),
        ("Boot time"@, ColumnKind::Text),
        ("DNS Servers"@, ColumnKind::Text),
        ("DHCP"@, ColumnKind::Bool),
        ("Domain"@, ColumnKind::Text),
        ("DNS Search Order"@, ColumnKind::Text),
        ("NTP Server(s)"@, ColumnKind::Text),
        ("NTPD running"@, ColumnKind::Bool),
        ("Time Zone"@, ColumnKind::Text),
        ("GMT Offset"@, ColumnKind::Number),
        ("Vendor"@, ColumnKind::Text),
        ("Model"@, ColumnKind::Text),
        ("Serial number"@, ColumnKind::Text),
        ("Service tag"@, ColumnKind::Text),
        ("BIOS Version"@, ColumnKind::Text),
        ("BIOS Date"@, ColumnKind::Text),
        ("UUID"@, ColumnKind::Text),
    ]
}

/// Which column a label names; `-1` for none.
#[verifier::opaque]
pub open spec fn label_index(s: Seq<char>) -> int {
    if s == "Host"@ {
        0
    } else if s == "Config status"@ {
        1
    } else if s == "in Maintenance Mode"@ {
        2
    } else if s == "Connection state"@ {
        3
    } else if s == "Power state"@ {
        4
    } else if s == "CPU Model"@ {
        5
    } else if s == "Speed"@ {
        6
    } else if s == "HT Available"@ {
        7
    } else if s == "HT Active"@ {
        8
    } else if s == "# CPU"@ {
        9
    } else if s == "Cores per CPU"@ {
        10
    } else if s == "# Cores"@ {
        11
    } else if s == "# CPU Threads"@ {
        12
    } else if s == "CPU usage %"@ {
        13
    } else if s == "# Memory GiB"@ {
        14
    } else if s == "Memory Tiering Type"@ {
        15
    } else if s == "DRAM GiB"@ {
        16
    } else if s == "NVMe Tier GiB"@ {
        17
    } else if s == "Memory usage %"@ {
        18
    } else if s == "# NICs"@ {
        19
    } else if s == "# HBAs"@ {
        20
    } else if s == "# VMs total"@ {
        21
    } else if s == "# VMs"@ {
        22
    } else if s == "VMs per Core"@ {
        23
    } else if s == "# vCPUs"@ {
        24
    } else if s == "vCPUs per Core"@ {
        25
    } else if s == "vRAM GiB"@ {
        26
    } else if s == "VMotion support"@ {
        27
    } else if s == "Storage VMotion support"@ {
        28
    } else if s == "Current EVC"@ {
        29
    } else if s == "Max EVC"@ {
        30
    } else if s == "Current CPU power man. policy"@ {
        31
    } else if s == "ESX Version"@ {
        32
    } else if s == "Boot time"@ {
        33
    } else if s == "DNS Servers"@ {
        34
    } else if s == "DHCP"@ {
        35
    } else if s == "Domain"@ {
        36
    } else if s == "DNS Search Order"@ {
        37
    } else if s == "NTP Server(s)"@ {
        38
    } else if s == "NTPD running"@ {
        39
    } else if s == "Time Zone"@ {
        40
    } else if s == "GMT Offset"@ {
        41
    } else if s == "Vendor"@ {
        42
    } else if s == "Model"@ {
        43
    } else if s == "Serial number"@ {
        44
    } else if s == "Service tag"@ {
        45
    } else if s == "BIOS Version"@ {
        46
    } else if s == "BIOS Date"@ {
        47
    } else if s == "UUID"@ {
        48
    } else {
        -1
    }
}

/// The sheet's labels are distinct, and none is `VI SDK Server`.
pub proof fn lemma_labels_ok()
    ensures
        super::labels_ok(column_spec()),
{
    reveal(label_index);
    reveal_strlit("Host");
    assert("Host"@.len() == 4);
    reveal_strlit("Config status");
    assert("Config status"@.len() == 13);
    reveal_strlit("in Maintenance Mode");
    assert("in Maintenance Mode"@.len() == 19);
    reveal_strlit("Connection state");
    assert("Connection state"@.len() == 16);
    reveal_strlit("Power state");
    assert("Power state"@.len() == 11);
    reveal_strlit("CPU Model");
    assert("CPU Model"@.len() == 9);
    reveal_strlit("Speed");
    assert("Speed"@.len() == 5);
    reveal_strlit("HT Available");
    assert("HT Available"@.len() == 12);
    reveal_strlit("HT Active");
    assert("HT Active"@.len() == 9);
    reveal_strlit("# CPU");
    assert("# CPU"@.len() == 5);
    reveal_strlit("Cores per CPU");
    assert("Cores per CPU"@.len() == 13);
    reveal_strlit("# Cores");
    assert("# Cores"@.len() == 7);
    reveal_strlit("# CPU Threads");
    assert("# CPU Threads"@.len() == 13);
    reveal_strlit("CPU usage %");
    assert("CPU usage %"@.len() == 11);
    reveal_strlit("# Memory GiB");
    assert("# Memory GiB"@.len() == 12);
    reveal_strlit("Memory Tiering Type");
    assert("Memory Tiering Type"@.len() == 19);
    reveal_strlit("DRAM GiB");
    assert("DRAM GiB"@.len() == 8);
    reveal_strlit("NVMe Tier GiB");
    assert("NVMe Tier GiB"@.len() == 13);
    reveal_strlit("Memory usage %");
    assert("Memory usage %"@.len() == 14);
    reveal_strlit("# NICs");
    assert("# NICs"@.len() == 6);
    reveal_strlit("# HBAs");
    assert("# HBAs"@.len() == 6);
    reveal_strlit("# VMs total");
    assert("# VMs total"@.len() == 11);
    reveal_strlit("# VMs");
    assert("# VMs"@.len() == 5);
    reveal_strlit("VMs per Core");
    assert("VMs per Core"@.len() == 12);
    reveal_strlit("# vCPUs");
    assert("# vCPUs"@.len() == 7);
    reveal_strlit("vCPUs per Core");
    assert("vCPUs per Core"@.len() == 14);
    reveal_strlit("vRAM GiB");
    assert("vRAM GiB"@.len() == 8);
    reveal_strlit("VMotion support");
    assert("VMotion support"@.len() == 15);
    reveal_strlit("Storage VMotion support");
    assert("Storage VMotion support"@.len() == 23);
    reveal_strlit("Current EVC");
    assert("Current EVC"@.len() == 11);
    reveal_strlit("Max EVC");
    assert("Max EVC"@.len() == 7);
    reveal_strlit("Current CPU power man. policy");
    assert("Current CPU power man. policy"@.len() == 29);
    reveal_strlit("ESX Version");
    assert("ESX Version"@.len() == 11);
    reveal_strlit("Boot time");
    assert("Boot time"@.len() == 9);
    reveal_strlit("DNS Servers");
    assert("DNS Servers"@.len() == 11);
    reveal_strlit("DHCP");
    assert("DHCP"@.len() == 4);
    reveal_strlit("Domain");
    assert("Domain"@.len() == 6);
    reveal_strlit("DNS Search Order");
    assert("DNS Search Order"@.len() == 16);
    reveal_strlit("NTP Server(s)");
    assert("NTP Server(s)"@.len() == 13);
    reveal_strlit("NTPD running");
    assert("NTPD running"@.len() == 12);
    reveal_strlit("Time Zone");
    assert("Time Zone"@.len() == 9);
    reveal_strlit("GMT Offset");
    assert("GMT Offset"@.len() == 10);
    reveal_strlit("Vendor");
    assert("Vendor"@.len() == 6);
    reveal_strlit("Model");
    assert("Model"@.len() == 5);
    reveal_strlit("Serial number");
    assert("Serial number"@.len() == 13);
    reveal_strlit("Service tag");
    assert("Service tag"@.len() == 11);
    reveal_strlit("BIOS Version");
    assert("BIOS Version"@.len() == 12);
    reveal_strlit("BIOS Date");
    assert("BIOS Date"@.len() == 9);
    reveal_strlit("UUID");
    assert("UUID"@.len() == 4);
    reveal_strlit("VI SDK Server");
    assert("VI SDK Server"@.len() == 13);
    assert("Host"@[0] == 'H');
    assert("DHCP"@[0] == 'D');
    assert("UUID"@[0] == 'U');
    assert("Config status"@[2] == 'n');
    assert("Cores per CPU"@[2] == 'r');
    assert("Config status"@[0] == 'C');
    assert("# CPU Threads"@[0] == '#');
    assert("NVMe Tier GiB"@[0] == 'N');
    assert("NTP Server(s)"@[0] == 'N');
    assert("Serial number"@[0] == 'S');
    assert("VI SDK Server"@[0] == 'V');
    assert("in Maintenance Mode"@[0] == 'i');
    assert("Memory Tiering Type"@[0] == 'M');
    assert("Connection state"@[0] == 'C');
    assert("DNS Search Order"@[0] == 'D');
    assert("Power state"@[0] == 'P');
    assert("CPU usage %"@[0] == 'C');
    assert("# VMs total"@[0] == '#');
    assert("Current EVC"@[0] == 'C');
    assert("ESX Version"@[0] == 'E');
    assert("DNS Servers"@[0] == 'D');
    assert("Service tag"@[0] == 'S');
    assert("CPU Model"@[0] == 'C');
    assert("HT Active"@[0] == 'H');
    assert("Boot time"@[0] == 'B');
    assert("Time Zone"@[0] == 'T');
    assert("BIOS Date"@[0] == 'B');
    assert("Speed"@[0] == 'S');
    assert("# CPU"@[0] == '#');
    assert("# VMs"@[0] == '#');
    assert("Model"@[0] == 'M');
    assert("HT Available"@[0] == 'H');
    assert("# Memory GiB"@[0] == '#');
    assert("VMs per Core"@[0] == 'V');
    assert("NTPD running"@[0] == 'N');
    assert("BIOS Version"@[0] == 'B');
    assert("# CPU"@[2] == 'C');
    assert("# VMs"@[2] == 'V');
    assert("Cores per CPU"@[0] == 'C');
    assert("# Cores"@[2] == 'C');
    assert("# vCPUs"@[2] == 'v');
    assert("# Cores"@[0] == '#');
    assert("Max EVC"@[0] == 'M');
    assert("CPU usage %"@[1] == 'P');
    assert("Current EVC"@[1] == 'u');
    assert("DRAM GiB"@[0] == 'D');
    assert("vRAM GiB"@[0] == 'v');
    assert("NVMe Tier GiB"@[1] == 'V');
    assert("NTP Server(s)"@[1] == 'T');
    assert("Memory usage %"@[0] == 'M');
    assert("vCPUs per Core"@[0] == 'v');
    assert("# NICs"@[2] == 'N');
    assert("# HBAs"@[2] == 'H');
    assert("# NICs"@[0] == '#');
    assert("Domain"@[0] == 'D');
    assert("Vendor"@[0] == 'V');
    assert("# HBAs"@[0] == '#');
    assert("# vCPUs"@[0] == '#');
    assert("Boot time"@[1] == 'o');
    assert("BIOS Date"@[1] == 'I');
    let cols = column_spec();
    assert(label_index(super::VI_SDK_SERVER@) == -1);
    assert forall|i: int| 0 <= i < cols.len() implies label_index(#[trigger] cols[i].0) == i by {
        if i == 0 {
                    assert(label_index(cols[0].0) == 0);
                } else if i == 1 {
                    assert(label_index(cols[1].0) == 1);
                } else if i == 2 {
                    assert(label_index(cols[2].0) == 2);
                } else if i == 3 {
                    assert(label_index(cols[3].0) == 3);
                } else if i == 4 {
                    assert(label_index(cols[4].0) == 4);
                } else if i == 5 {
                    assert(label_index(cols[5].0) == 5);
                } else if i == 6 {
                    assert(label_index(cols[6].0) == 6);
                } else if i == 7 {
                    assert(label_index(cols[7].0) == 7);
                } else if i == 8 {
                    assert(label_index(cols[8].0) == 8);
                } else if i == 9 {
                    assert(label_index(cols[9].0) == 9);
                } else if i == 10 {
                    assert(label_index(cols[10].0) == 10);
                } else if i == 11 {
                    assert(label_index(cols[11].0) == 11);
                } else if i == 12 {
                    assert(label_index(cols[12].0) == 12);
                } else if i == 13 {
                    assert(label_index(cols[13].0) == 13);
                } else if i == 14 {
                    assert(label_index(cols[14].0) == 14);
                } else if i == 15 {
                    assert(label_index(cols[15].0) == 15);
                } else if i == 16 {
                    assert(label_index(cols[16].0) == 16);
                } else if i == 17 {
                    assert(label_index(cols[17].0) == 17);
                } else if i == 18 {
                    assert(label_index(cols[18].0) == 18);
                } else if i == 19 {
                    assert(label_index(cols[19].0) == 19);
                } else if i == 20 {
                    assert(label_index(cols[20].0) == 20);
                } else if i == 21 {
                    assert(label_index(cols[21].0) == 21);
                } else if i == 22 {
                    assert(label_index(cols[22].0) == 22);
                } else if i == 23 {
                    assert(label_index(cols[23].0) == 23);
                } else if i == 24 {
                    assert(label_index(cols[24].0) == 24);
                } else if i == 25 {
                    assert(label_index(cols[25].0) == 25);
                } else if i == 26 {
                    assert(label_index(cols[26].0) == 26);
                } else if i == 27 {
                    assert(label_index(cols[27].0) == 27);
                } else if i == 28 {
                    assert(label_index(cols[28].0) == 28);
                } else if i == 29 {
                    assert(label_index(cols[29].0) == 29);
                } else if i == 30 {
                    assert(label_index(cols[30].0) == 30);
                } else if i == 31 {
                    assert(label_index(cols[31].0) == 31);
                } else if i == 32 {
                    assert(label_index(cols[32].0) == 32);
                } else if i == 33 {
                    assert(label_index(cols[33].0) == 33);
                } else if i == 34 {
                    assert(label_index(cols[34].0) == 34);
                } else if i == 35 {
                    assert(label_index(cols[35].0) == 35);
                } else if i == 36 {
                    assert(label_index(cols[36].0) == 36);
                } else if i == 37 {
                    assert(label_index(cols[37].0) == 37);
                } else if i == 38 {
                    assert(label_index(cols[38].0) == 38);
                } else if i == 39 {
                    assert(label_index(cols[39].0) == 39);
                } else if i == 40 {
                    assert(label_index(cols[40].0) == 40);
                } else if i == 41 {
                    assert(label_index(cols[41].0) == 41);
                } else if i == 42 {
                    assert(label_index(cols[42].0) == 42);
                } else if i == 43 {
                    assert(label_index(cols[43].0) == 43);
                } else if i == 44 {
                    assert(label_index(cols[44].0) == 44);
                } else if i == 45 {
                    assert(label_index(cols[45].0) == 45);
                } else if i == 46 {
                    assert(label_index(cols[46].0) == 46);
                } else if i == 47 {
                    assert(label_index(cols[47].0) == 47);
                } else if i == 48 {
                    assert(label_index(cols[48].0) == 48);
                }
    }
}

pub fn columns() -> (r: Vec<Column>)
    ensures
        columns_view(r@) == column_spec(),
{
    let r = vec![
        Column::text("Host"),
        Column::text("Config status"),
        Column::bool("in Maintenance Mode"),
        Column::text("Connection state"),
        Column::text("Power state"),
        Column::text("CPU Model"),
        Column::number("Speed"),
        Column::bool("HT Available"),
        Column::bool("HT Active"),
        Column::number("# CPU"),
        Column::number("Cores per CPU"),
        Column::number("# Cores"),
        Column::number("# CPU Threads"),
        Column::number("CPU usage %"),
        Column::number("# Memory GiB"),
        Column::text("Memory Tiering Type"),
        Column::number("DRAM GiB"),
        Column::number("NVMe Tier GiB"),
        Column::number("Memory usage %"),
        Column::number("# NICs"),
        Column::number("# HBAs"),
        Column::number("# VMs total"),
        Column::number("# VMs"),
        Column::number("VMs per Core"),
        Column::number("# vCPUs"),
        Column::number("vCPUs per Core"),
        Column::number("vRAM GiB"),
        Column::bool("VMotion support"),
        Column::bool("Storage VMotion support"),
        Column::text("Current EVC"),
        Column::text("Max EVC"),
        Column::text("Current CPU power man. policy"),
        Column::text("ESX Version"),
        Column::text("Boot time"),
        Column::text("DNS Servers"),
        Column::bool("DHCP"),
        Column::text("Domain"),
        Column::text("DNS Search Order"),
        Column::text("NTP Server(s)"),
        Column::bool("NTPD running"),
        Column::text("Time Zone"),
        Column::number("GMT Offset"),
        Column::text("Vendor"),
        Column::text("Model"),
        Column::text("Serial number"),
        Column::text("Service tag"),
        Column::text("BIOS Version"),
        Column::text("BIOS Date"),
        Column::text("UUID"),
    ];
    proof { assert(columns_view(r@) =~= column_spec()); }
    r
}

/// `HostSystem` properties this sheet reads.
pub open spec fn host_prop_names() -> Seq<Seq<char>> {
    seq![
        "name"@,
        "overallStatus"@,
        "runtime.connectionState"@,
        "runtime.powerState"@,
        "runtime.inMaintenanceMode"@,
        "runtime.bootTime"@,
        "summary.hardware.vendor"@,
        "summary.hardware.model"@,
        "summary.hardware.cpuModel"@,
        "summary.hardware.cpuMhz"@,
        "summary.hardware.numCpuPkgs"@,
        "summary.hardware.numCpuCores"@,
        "summary.hardware.numCpuThreads"@,
        "summary.hardware.memorySize"@,
        "hardware.memoryTierInfo"@,
        "summary.hardware.numNics"@,
        "summary.hardware.numHBAs"@,
        "summary.hardware.uuid"@,
        "summary.quickStats.overallCpuUsage"@,
        "summary.quickStats.overallMemoryUsage"@,
        "summary.currentEVCModeKey"@,
        "summary.maxEVCModeKey"@,
        "capability.vmotionSupported"@,
        "capability.storageVMotionSupported"@,
        "config.product.fullName"@,
        "config.hyperThread.available"@,
        "config.hyperThread.active"@,
        "config.network.dnsConfig.domainName"@,
        "config.network.dnsConfig.address"@,
        "config.network.dnsConfig.searchDomain"@,
        "config.network.dnsConfig.dhcp"@,
        "config.dateTimeInfo.timeZone.name"@,
        "config.dateTimeInfo.timeZone.gmtOffset"@,
        "config.dateTimeInfo.ntpConfig.server"@,
        "config.service.service"@,
        "hardware.biosInfo.biosVersion"@,
        "hardware.biosInfo.releaseDate"@,
        "hardware.cpuPowerManagementInfo.currentPolicy"@,
        "hardware.systemInfo.serialNumber"@,
        "hardware.systemInfo.otherIdentifyingInfo"@,
    ]
}

/// `HostSystem` properties this sheet reads.
pub fn host_props() -> (r: Vec<&'static str>)
    ensures
        strs_view(r@) == host_prop_names(),
{
    let r = vec![
        "name",
        "overallStatus",
        "runtime.connectionState",
        "runtime.powerState",
        "runtime.inMaintenanceMode",
        "runtime.bootTime",
        "summary.hardware.vendor",
        "summary.hardware.model",
        "summary.hardware.cpuModel",
        "summary.hardware.cpuMhz",
        "summary.hardware.numCpuPkgs",
        "summary.hardware.numCpuCores",
        "summary.hardware.numCpuThreads",
        "summary.hardware.memorySize",
        "hardware.memoryTierInfo",
        "summary.hardware.numNics",
        "summary.hardware.numHBAs",
        "summary.hardware.uuid",
        "summary.quickStats.overallCpuUsage",
        "summary.quickStats.overallMemoryUsage",
        "summary.currentEVCModeKey",
        "summary.maxEVCModeKey",
        "capability.vmotionSupported",
        "capability.storageVMotionSupported",
        "config.product.fullName",
        "config.hyperThread.available",
        "config.hyperThread.active",
        "config.network.dnsConfig.domainName",
        "config.network.dnsConfig.address",
        "config.network.dnsConfig.searchDomain",
        "config.network.dnsConfig.dhcp",
        "config.dateTimeInfo.timeZone.name",
        "config.dateTimeInfo.timeZone.gmtOffset",
        "config.dateTimeInfo.ntpConfig.server",
        "config.service.service",
        "hardware.biosInfo.biosVersion",
        "hardware.biosInfo.releaseDate",
        "hardware.cpuPowerManagementInfo.currentPolicy",
        "hardware.systemInfo.serialNumber",
        "hardware.systemInfo.otherIdentifyingInfo",
    ];
    proof { assert(strs_view(r@) =~= host_prop_names()); }
    r
}

/// The texts of a list of nodes, empty ones left out.
pub open spec fn nonempty_texts(ns: Seq<XNode>) -> Seq<Seq<char>>
    decreases ns.len(),
{
    if ns.len() == 0 {
        Seq::empty()
    } else if ns.last().text.len() > 0 {
        nonempty_texts(ns.drop_last()).push(ns.last().text)
    } else {
        nonempty_texts(ns.drop_last())
    }
}

/// A `string[]` property's non-empty members joined with `", "`; absent when
/// nothing is left.
pub open spec fn string_array_of(m: MoView, prop: Seq<char>) -> Option<Seq<char>> {
    let j = joined(nonempty_texts(array_prop_of(m, prop)), ", "@);
    if j.len() > 0 {
        Some(j)
    } else {
        None
    }
}

/// Join a `string[]` property: vim25 names those elements `<string>`.
pub fn string_array(host: &ManagedObject, prop: &str) -> (r: Option<String>)
    ensures
        opt_str_view(r) == string_array_of(host@, prop@),
{
    let items = host.array_prop(prop);
    let ghost nv = array_prop_of(host@, prop@);
    let mut parts: Vec<String> = Vec::new();
    let mut i: usize = 0;
    while i < items.len()
        invariant
            i <= items@.len(),
            items@.len() == nv.len(),
            nv == array_prop_of(host@, prop@),
            forall|k: int| 0 <= k < nv.len() ==> (#[trigger] items@[k])@ == nv[k],
            strings_view(parts@) =~= nonempty_texts(nv.take(i as int)),
        decreases items.len() - i,
    {
        proof { assert(nv.take(i + 1).drop_last() =~= nv.take(i as int)); }
        let t = items[i].text.clone();
        if chars_of(t.as_str()).len() > 0 {
            parts.push(t);
        }
        i += 1;
    }
    proof { assert(nv.take(nv.len() as int) =~= nv); }
    let j = join(&parts, ", ");
    if chars_of(j.as_str()).len() > 0 {
        Some(j)
    } else {
        None
    }
}

pub open spec fn elements_view(v: Seq<&Element>) -> Seq<XNode> {
    v.map_values(|x: &Element| x@)
}

proof fn lemma_elements_view(v: Seq<&Element>, ns: Seq<XNode>)
    requires
        v.len() == ns.len(),
        forall|k: int| 0 <= k < ns.len() ==> (#[trigger] v[k])@ == ns[k],
    ensures
        elements_view(v) == ns,
{
    assert(elements_view(v) =~= ns);
}

/// `true` or `false` as spelled; anything else is no answer.
pub open spec fn bool_word(t: Option<Seq<char>>) -> Option<bool> {
    match t {
        Some(w) => if w == "true"@ {
            Some(true)
        } else if w == "false"@ {
            Some(false)
        } else {
            None
        },
        None => None,
    }
}

/// Whether the host service with this `key` is running, as reported.
pub open spec fn service_running_of(m: MoView, key: Seq<char>) -> Option<bool> {
    match first_with_text(array_prop_of(m, "config.service.service"@), "key"@, key) {
        Some(s) => bool_word(text_at_path(s, "running"@)),
        None => None,
    }
}

/// Whether a host service is running, by its `HostService` key.
pub fn service_running(host: &ManagedObject, key: &str) -> (r: Option<bool>)
    ensures
        r == service_running_of(host@, key@),
{
    let items = host.array_prop("config.service.service");
    proof { lemma_elements_view(items@, array_prop_of(host@, "config.service.service"@)); }
    match find_by_text(&items, "key", key) {
        Some(s) => match s.text_at("running") {
            Some(t) => if str_eq(t.as_str(), "true") {
                Some(true)
            } else if str_eq(t.as_str(), "false") {
                Some(false)
            } else {
                None
            },
            None => None,
        },
        None => None,
    }
}

/// The value of the `otherIdentifyingInfo` entry with this identifier key,
/// unless it is empty or the firmware's `Default string` placeholder.
pub open spec fn identifying_info_of(m: MoView, key: Seq<char>) -> Option<Seq<char>> {
    match first_with_text(array_prop_of(m, "hardware.systemInfo.otherIdentifyingInfo"@), "identifierType/key"@, key) {
        Some(e) => match text_at_path(e, "identifierValue"@) {
            Some(v) => if v.len() > 0 && v != "Default string"@ {
                Some(v)
            } else {
                None
            },
            None => None,
        },
        None => None,
    }
}

/// One entry of `hardware.systemInfo.otherIdentifyingInfo`, by identifier key
/// (`ServiceTag`, `AssetTag`, ...).
pub fn identifying_info(host: &ManagedObject, key: &str) -> (r: Option<String>)
    ensures
        opt_str_view(r) == identifying_info_of(host@, key@),
{
    let items = host.array_prop("hardware.systemInfo.otherIdentifyingInfo");
    proof { lemma_elements_view(items@, array_prop_of(host@, "hardware.systemInfo.otherIdentifyingInfo"@)); }
    match find_by_text(&items, "identifierType/key", key) {
        Some(e) => match e.text_at("identifierValue") {
            Some(v) => if chars_of(v.as_str()).len() > 0 && !str_eq(v.as_str(), "Default string") {
                Some(v)
            } else {
                None
            },
            None => None,
        },
        None => None,
    }
}

/// The size in bytes of the memory tier of this type, when reported.
pub open spec fn tier_bytes_of(m: MoView, tier: Seq<char>) -> Option<i64> {
    match first_with_text(array_prop_of(m, "hardware.memoryTierInfo"@), "type"@, tier) {
        Some(t) => match text_at_path(t, "size"@) {
            Some(sz) => parse_i64(sz),
            None => None,
        },
        None => None,
    }
}

/// Size of one memory tier, by `HostMemoryTierInfo` type (`DRAM`, `NVMe`).
///
/// With memory tiering enabled, `hardware.memorySize` is DRAM plus the NVMe
/// tier, so a host reporting 478 GiB may hold only 96 GiB of DRAM. The tiers
/// are broken out rather than letting one number imply physical RAM.
pub fn memory_tier_bytes(host: &ManagedObject, tier: &str) -> (r: Option<i64>)
    ensures
        r == tier_bytes_of(host@, tier@),
{
    let items = host.array_prop("hardware.memoryTierInfo");
    proof { lemma_elements_view(items@, array_prop_of(host@, "hardware.memoryTierInfo"@)); }
    match find_by_text(&items, "type", tier) {
        Some(t) => match t.text_at("size") {
            Some(sz) => parse_i64_str(sz.as_str()),
            None => None,
        },
        None => None,
    }
}

/// The non-empty `type` of each tier, in order.
pub open spec fn tier_types(ns: Seq<XNode>) -> Seq<Seq<char>>
    decreases ns.len(),
{
    if ns.len() == 0 {
        Seq::empty()
    } else {
        match text_at_path(ns.last(), "type"@) {
            Some(t) => if t.len() > 0 {
                tier_types(ns.drop_last()).push(t)
            } else {
                tier_types(ns.drop_last())
            },
            None => tier_types(ns.drop_last()),
        }
    }
}

pub open spec fn tiering_type_of(m: MoView) -> Option<Seq<char>> {
    let ts = tier_types(array_prop_of(m, "hardware.memoryTierInfo"@));
    if ts.len() > 0 {
        Some(joined(ts, " + "@))
    } else {
        None
    }
}

/// The tier types present, e.g. `DRAM` or `DRAM + NVMe`.
pub fn memory_tiering_type(host: &ManagedObject) -> (r: Option<String>)
    ensures
        opt_str_view(r) == tiering_type_of(host@),
{
    let items = host.array_prop("hardware.memoryTierInfo");
    let ghost nv = array_prop_of(host@, "hardware.memoryTierInfo"@);
    let mut types: Vec<String> = Vec::new();
    let mut i: usize = 0;
    while i < items.len()
        invariant
            i <= items@.len(),
            items@.len() == nv.len(),
            nv == array_prop_of(host@, "hardware.memoryTierInfo"@),
            forall|k: int| 0 <= k < nv.len() ==> (#[trigger] items@[k])@ == nv[k],
            strings_view(types@) =~= tier_types(nv.take(i as int)),
        decreases items.len() - i,
    {
        proof { assert(nv.take(i + 1).drop_last() =~= nv.take(i as int)); }
        match items[i].text_at("type") {
            Some(t) => {
                if chars_of(t.as_str()).len() > 0 {
                    types.push(t);
                }
            },
            None => {},
        }
        i += 1;
    }
    proof { assert(nv.take(nv.len() as int) =~= nv); }
    if types.len() > 0 {
        Some(join(&types, " + "))
    } else {
        None
    }
}

/// `a / b` rounded toward zero, as Rust's integer division does.
pub open spec fn trunc_div(a: int, b: int) -> int {
    if a >= 0 {
        a / b
    } else {
        -((-a) / b)
    }
}

/// Cores per socket, when both are reported and there is a socket.
pub open spec fn cores_per_cpu_of(cores: Option<i64>, sockets: Option<i64>) -> Option<i128> {
    match (cores, sockets) {
        (Some(c), Some(s)) => if s > 0 {
            Some((trunc_div(c as int, s as int) * 100) as i128)
        } else {
            None
        },
        _ => None,
    }
}

/// Total CPU capacity, cores times per-core MHz.
pub open spec fn cpu_capacity_of(h: MoView) -> Option<int> {
    match (i64_prop_of(h, "summary.hardware.numCpuCores"@), i64_prop_of(h, "summary.hardware.cpuMhz"@)) {
        (Some(c), Some(mhz)) => Some(c * mhz),
        _ => None,
    }
}

pub open spec fn cpu_usage_of(h: MoView) -> Option<int> {
    match (i64_prop_of(h, "summary.quickStats.overallCpuUsage"@), cpu_capacity_of(h)) {
        (Some(used), Some(total)) => if total > 0 {
            Some(div_round(used * 10000, total))
        } else {
            None
        },
        _ => None,
    }
}

/// Memory usage: quickStats reports MiB and the host's size is in bytes, so
/// the size is converted (whole MiB) before dividing. A host reporting less
/// than one MiB has no usage figure.
pub open spec fn memory_usage_of(h: MoView) -> Option<int> {
    match (i64_prop_of(h, "summary.quickStats.overallMemoryUsage"@), i64_prop_of(h, "summary.hardware.memorySize"@)) {
        (Some(used), Some(total)) => if total > 0 && (total as int) / (1024 * 1024int) > 0 {
            Some(div_round(used * 10000, (total as int) / (1024 * 1024int)))
        } else {
            None
        },
        _ => None,
    }
}

/// Status and CPU columns, `Config status` to `# CPU Threads`.
pub open spec fn status_cells(h: MoView) -> Seq<CellValue> {
    let cores = i64_prop_of(h, "summary.hardware.numCpuCores"@);
    let sockets = i64_prop_of(h, "summary.hardware.numCpuPkgs"@);
    seq![
        opt_text_value(str_prop_of(h, "overallStatus"@)),
        opt_bool_value(bool_prop_of(h, "runtime.inMaintenanceMode"@)),
        opt_text_value(str_prop_of(h, "runtime.connectionState"@)),
        opt_text_value(str_prop_of(h, "runtime.powerState"@)),
        opt_text_value(str_prop_of(h, "summary.hardware.cpuModel"@)),
        opt_num_value(whole_of(i64_prop_of(h, "summary.hardware.cpuMhz"@))),
        opt_bool_value(bool_prop_of(h, "config.hyperThread.available"@)),
        opt_bool_value(bool_prop_of(h, "config.hyperThread.active"@)),
        opt_num_value(whole_of(sockets)),
        opt_num_value(cores_per_cpu_of(cores, sockets)),
        opt_num_value(whole_of(cores)),
        opt_num_value(whole_of(i64_prop_of(h, "summary.hardware.numCpuThreads"@))),
    ]
}

/// Usage and memory columns, `CPU usage %` to `# HBAs`.
pub open spec fn usage_cells(h: MoView) -> Seq<CellValue> {
    seq![
        hundredths_value(cpu_usage_of(h)),
        hundredths_value(gib_of(i64_prop_of(h, "summary.hardware.memorySize"@))),
        opt_text_value(tiering_type_of(h)),
        hundredths_value(gib_of(tier_bytes_of(h, "DRAM"@))),
        hundredths_value(gib_of(tier_bytes_of(h, "NVMe"@))),
        hundredths_value(memory_usage_of(h)),
        opt_num_value(whole_of(i64_prop_of(h, "summary.hardware.numNics"@))),
        opt_num_value(whole_of(i64_prop_of(h, "summary.hardware.numHBAs"@))),
    ]
}

/// The VM rollup columns, `# VMs total` to `vRAM GiB`.
pub open spec fn vm_cells(h: MoView, t: TotalsView) -> Seq<CellValue> {
    let cores = i64_prop_of(h, "summary.hardware.numCpuCores"@);
    seq![
        CellValue::Number((t.vms_total * 100) as i128),
        CellValue::Number((t.vms_powered_on * 100) as i128),
        hundredths_value(ratio_of(t.vms_total as i64, cores)),
        CellValue::Number((t.vcpus * 100) as i128),
        hundredths_value(ratio_of(t.vcpus as i64, cores)),
        CellValue::Number(gib_hundredths(t.vram_mib * 1024 * 1024) as i128),
    ]
}

/// Capability, version and network columns, `VMotion support` to
/// `NTPD running`.
pub open spec fn config_cells(h: MoView) -> Seq<CellValue> {
    seq![
        opt_bool_value(bool_prop_of(h, "capability.vmotionSupported"@)),
        opt_bool_value(bool_prop_of(h, "capability.storageVMotionSupported"@)),
        opt_text_value(str_prop_of(h, "summary.currentEVCModeKey"@)),
        opt_text_value(str_prop_of(h, "summary.maxEVCModeKey"@)),
        opt_text_value(str_prop_of(h, "hardware.cpuPowerManagementInfo.currentPolicy"@)),
        opt_text_value(str_prop_of(h, "config.product.fullName"@)),
        opt_text_value(str_prop_of(h, "runtime.bootTime"@)),
        opt_text_value(string_array_of(h, "config.network.dnsConfig.address"@)),
        opt_bool_value(bool_prop_of(h, "config.network.dnsConfig.dhcp"@)),
        opt_text_value(str_prop_of(h, "config.network.dnsConfig.domainName"@)),
        opt_text_value(string_array_of(h, "config.network.dnsConfig.searchDomain"@)),
        opt_text_value(string_array_of(h, "config.dateTimeInfo.ntpConfig.server"@)),
        opt_bool_value(service_running_of(h, "ntpd"@)),
    ]
}

/// Time zone and hardware identity columns, `Time Zone` to `UUID`.
pub open spec fn identity_cells(h: MoView) -> Seq<CellValue> {
    seq![
        opt_text_value(str_prop_of(h, "config.dateTimeInfo.timeZone.name"@)),
        opt_num_value(whole_of(i64_prop_of(h, "config.dateTimeInfo.timeZone.gmtOffset"@))),
        opt_text_value(str_prop_of(h, "summary.hardware.vendor"@)),
        opt_text_value(str_prop_of(h, "summary.hardware.model"@)),
        opt_text_value(str_prop_of(h, "hardware.systemInfo.serialNumber"@)),
        opt_text_value(identifying_info_of(h, "ServiceTag"@)),
        opt_text_value(str_prop_of(h, "hardware.biosInfo.biosVersion"@)),
        opt_text_value(str_prop_of(h, "hardware.biosInfo.releaseDate"@)),
        opt_text_value(str_prop_of(h, "summary.hardware.uuid"@)),
    ]
}

/// The row for one host, given its VM rollup: an error when the host has no
/// name.
pub open spec fn host_row_of(h: MoView, t: TotalsView) -> Result<Seq<CellValue>, Seq<char>> {
    match str_prop_of(h, "name"@) {
        None => Err(no_name_error("HostSystem "@, h.moref)),
        Some(name) => Ok(
            seq![CellValue::Text(name)] + status_cells(h) + usage_cells(h) + vm_cells(h, t) + config_cells(h)
                + identity_cells(h),
        ),
    }
}

/// The host's arithmetic stays within `i64`: cores times MHz, and the VMs'
/// memory converted from MiB to bytes.
pub open spec fn host_row_fits(h: MoView, t: TotalsView) -> bool {
    &&& match cpu_capacity_of(h) {
        Some(c) => i64::MIN <= c <= i64::MAX,
        None => true,
    }
    &&& i64::MIN <= t.vram_mib * 1024 * 1024 <= i64::MAX
    &&& i64::MIN <= t.vms_total <= i64::MAX
    &&& i64::MIN <= t.vms_powered_on <= i64::MAX
    &&& i64::MIN <= t.vcpus <= i64::MAX
}

fn status_row(h: &ManagedObject) -> (r: Vec<Cell>)
    ensures
        row_view(r) == status_cells(h@),
{
    let cores = h.i64_prop("summary.hardware.numCpuCores");
    let sockets = h.i64_prop("summary.hardware.numCpuPkgs");
    let per_cpu: Option<i128> = match (cores, sockets) {
        (Some(c), Some(s)) => if s > 0 {
            let c2 = c as i128;
            let s2 = s as i128;
            let q = if c2 >= 0 { c2 / s2 } else { -((-c2) / s2) };
            Some(q * 100)
        } else {
            None
        },
        _ => None,
    };
    proof { assert(per_cpu == cores_per_cpu_of(cores, sockets)); }
    let r = vec![
        text_cell(h.str_prop("overallStatus")),
        Cell::opt_bool(h.bool_prop("runtime.inMaintenanceMode")),
        text_cell(h.str_prop("runtime.connectionState")),
        text_cell(h.str_prop("runtime.powerState")),
        text_cell(h.str_prop("summary.hardware.cpuModel")),
        Cell::opt_num(whole(h.i64_prop("summary.hardware.cpuMhz"))),
        Cell::opt_bool(h.bool_prop("config.hyperThread.available")),
        Cell::opt_bool(h.bool_prop("config.hyperThread.active")),
        Cell::opt_num(whole(sockets)),
        Cell::opt_num(per_cpu),
        Cell::opt_num(whole(cores)),
        Cell::opt_num(whole(h.i64_prop("summary.hardware.numCpuThreads"))),
    ];
    proof { assert(row_view(r) =~= status_cells(h@)); }
    r
}

fn usage_row(h: &ManagedObject) -> (r: Vec<Cell>)
    requires
        match cpu_capacity_of(h@) {
            Some(c) => i64::MIN <= c <= i64::MAX,
            None => true,
        },
    ensures
        row_view(r) == usage_cells(h@),
{
    let memory_bytes = h.i64_prop("summary.hardware.memorySize");
    let memory_usage: Option<i128> = match (h.i64_prop("summary.quickStats.overallMemoryUsage"), memory_bytes) {
        (Some(used), Some(total)) => if total > 0 && total / (1024 * 1024) > 0 {
            Some(scaled_div_round(used, total / (1024 * 1024), 10000))
        } else {
            None
        },
        _ => None,
    };
    let capacity: Option<i64> = match (h.i64_prop("summary.hardware.numCpuCores"), h.i64_prop("summary.hardware.cpuMhz")) {
        (Some(c), Some(mhz)) => Some(c * mhz),
        _ => None,
    };
    let cpu_usage: Option<i128> = match (h.i64_prop("summary.quickStats.overallCpuUsage"), capacity) {
        (Some(used), Some(total)) => if total > 0 {
            Some(scaled_div_round(used, total, 10000))
        } else {
            None
        },
        _ => None,
    };
    let c0 = opt_hundredths(cpu_usage);
    proof { assert(c0@ == hundredths_value(cpu_usage_of(h@))); }
    let c1 = opt_hundredths(opt_gib(memory_bytes));
    let c3 = opt_hundredths(opt_gib(memory_tier_bytes(h, "DRAM")));
    let c4 = opt_hundredths(opt_gib(memory_tier_bytes(h, "NVMe")));
    let c5 = opt_hundredths(memory_usage);
    proof { assert(c5@ == hundredths_value(memory_usage_of(h@))); }
    let r = vec![
        c0,
        c1,
        text_cell(memory_tiering_type(h)),
        c3,
        c4,
        c5,
        Cell::opt_num(whole(h.i64_prop("summary.hardware.numNics"))),
        Cell::opt_num(whole(h.i64_prop("summary.hardware.numHBAs"))),
    ];
    proof { assert(row_view(r) =~= usage_cells(h@)); }
    r
}

fn vm_row(h: &ManagedObject, totals: HostVmTotals) -> (r: Vec<Cell>)
    requires
        i64::MIN <= totals.vram_mib * 1024 * 1024 <= i64::MAX,
    ensures
        row_view(r) == vm_cells(h@, totals@),
{
    let cores = h.i64_prop("summary.hardware.numCpuCores");
    let vram = super::common::bytes_to_gib(totals.vram_mib * 1024 * 1024);
    let r = vec![
        Cell::Number((totals.vms_total as i128) * 100),
        Cell::Number((totals.vms_powered_on as i128) * 100),
        opt_hundredths(ratio(totals.vms_total, cores)),
        Cell::Number((totals.vcpus as i128) * 100),
        opt_hundredths(ratio(totals.vcpus, cores)),
        Cell::Number(vram),
    ];
    proof { assert(row_view(r) =~= vm_cells(h@, totals@)); }
    r
}

fn config_row(h: &ManagedObject) -> (r: Vec<Cell>)
    ensures
        row_view(r) == config_cells(h@),
{
    let r = vec![
        Cell::opt_bool(h.bool_prop("capability.vmotionSupported")),
        Cell::opt_bool(h.bool_prop("capability.storageVMotionSupported")),
        text_cell(h.str_prop("summary.currentEVCModeKey")),
        text_cell(h.str_prop("summary.maxEVCModeKey")),
        text_cell(h.str_prop("hardware.cpuPowerManagementInfo.currentPolicy")),
        text_cell(h.str_prop("config.product.fullName")),
        text_cell(h.str_prop("runtime.bootTime")),
        text_cell(string_array(h, "config.network.dnsConfig.address")),
        Cell::opt_bool(h.bool_prop("config.network.dnsConfig.dhcp")),
        text_cell(h.str_prop("config.network.dnsConfig.domainName")),
        text_cell(string_array(h, "config.network.dnsConfig.searchDomain")),
        text_cell(string_array(h, "config.dateTimeInfo.ntpConfig.server")),
        Cell::opt_bool(service_running(h, "ntpd")),
    ];
    proof { assert(row_view(r) =~= config_cells(h@)); }
    r
}

fn identity_row(h: &ManagedObject) -> (r: Vec<Cell>)
    ensures
        row_view(r) == identity_cells(h@),
{
    let r = vec![
        text_cell(h.str_prop("config.dateTimeInfo.timeZone.name")),
        Cell::opt_num(whole(h.i64_prop("config.dateTimeInfo.timeZone.gmtOffset"))),
        text_cell(h.str_prop("summary.hardware.vendor")),
        text_cell(h.str_prop("summary.hardware.model")),
        text_cell(h.str_prop("hardware.systemInfo.serialNumber")),
        text_cell(identifying_info(h, "ServiceTag")),
        text_cell(h.str_prop("hardware.biosInfo.biosVersion")),
        text_cell(h.str_prop("hardware.biosInfo.releaseDate")),
        text_cell(h.str_prop("summary.hardware.uuid")),
    ];
    proof { assert(row_view(r) =~= identity_cells(h@)); }
    r
}

/// The vHost row for one host.
pub fn host_row(host: &ManagedObject, totals: HostVmTotals) -> (r: Result<Vec<Cell>, String>)
    requires
        host_row_fits(host@, totals@),
    ensures
        match r {
            Ok(row) => host_row_of(host@, totals@) == Ok::<Seq<CellValue>, Seq<char>>(row_view(row)),
            Err(e) => host_row_of(host@, totals@) == Err::<Seq<CellValue>, Seq<char>>(e@),
        },
{
    let name = match host.str_prop("name") {
        Some(n) => n,
        None => {
            return Err(String::from_str("HostSystem ").concat(host.moref.as_str()).concat(" returned no name property"));
        },
    };
    let ghost nm = name@;
    let first = vec![Cell::Text(name)];
    proof { assert(row_view(first) =~= seq![CellValue::Text(nm)]); }
    let r = append_cells(first, status_row(host));
    let r = append_cells(r, usage_row(host));
    let r = append_cells(r, vm_row(host, totals));
    let r = append_cells(r, config_row(host));
    let r = append_cells(r, identity_row(host));
    proof {
        assert(row_view(r) =~= seq![CellValue::Text(nm)] + status_cells(host@) + usage_cells(host@) + vm_cells(host@, totals@)
            + config_cells(host@) + identity_cells(host@));
    }
    Ok(r)
}

/// Every host's row, in order; the first nameless host is an error.
pub open spec fn host_rows_of(hs: Seq<MoView>, totals: Seq<(Seq<char>, TotalsView)>) -> Result<Seq<Seq<CellValue>>, Seq<char>>
    decreases hs.len(),
{
    if hs.len() == 0 {
        Ok(Seq::empty())
    } else {
        match host_rows_of(hs.drop_last(), totals) {
            Err(e) => Err(e),
            Ok(rows) => match host_row_of(hs.last(), totals_for_of(totals, hs.last().moref)) {
                Err(e) => Err(e),
                Ok(row) => Ok(rows.push(row)),
            },
        }
    }
}

pub open spec fn host_rows_fit(hs: Seq<MoView>, totals: Seq<(Seq<char>, TotalsView)>) -> bool {
    forall|i: int| 0 <= i < hs.len() ==> host_row_fits(#[trigger] hs[i], totals_for_of(totals, hs[i].moref))
}

/// The vHost rows: one per host, with its VM rollup from `totals`.
pub fn host_rows(hosts: &Vec<ManagedObject>, totals: &Vec<(String, HostVmTotals)>) -> (r: Result<Vec<Vec<Cell>>, String>)
    requires
        host_rows_fit(mos_view(hosts@), totals_entries(totals@)),
    ensures
        match r {
            Ok(rows) => host_rows_of(mos_view(hosts@), totals_entries(totals@)) == Ok::<Seq<Seq<CellValue>>, Seq<char>>(rows_view(rows@)),
            Err(e) => host_rows_of(mos_view(hosts@), totals_entries(totals@)) == Err::<Seq<Seq<CellValue>>, Seq<char>>(e@),
        },
{
    let ghost hv = mos_view(hosts@);
    let ghost tv = totals_entries(totals@);
    let mut rows: Vec<Vec<Cell>> = Vec::new();
    let mut i: usize = 0;
    proof {
        assert(hv.take(0) =~= Seq::<MoView>::empty());
        assert(rows_view(rows@) =~= Seq::<Seq<CellValue>>::empty());
    }
    while i < hosts.len()
        invariant
            i <= hosts@.len(),
            hv == mos_view(hosts@),
            tv == totals_entries(totals@),
            host_rows_fit(hv, tv),
            host_rows_of(hv.take(i as int), tv) == Ok::<Seq<Seq<CellValue>>, Seq<char>>(rows_view(rows@)),
        decreases hosts.len() - i,
    {
        proof {
            assert(hv.take(i + 1).drop_last() =~= hv.take(i as int));
            assert(hv.take(i + 1).last() == hosts@[i as int]@);
            assert(hv[i as int] == hosts@[i as int]@);
        }
        let t = totals_for(totals, hosts[i].moref.as_str());
        match host_row(&hosts[i], t) {
            Ok(row) => {
                let ghost before = rows@;
                rows.push(row);
                proof { assert(rows_view(rows@) =~= rows_view(before).push(row_view(row))); }
            },
            Err(e) => {
                proof { lemma_rows_err_stays(hv, tv, i as int + 1); }
                return Err(e);
            },
        }
        i += 1;
    }
    proof { assert(hv.take(hv.len() as int) =~= hv); }
    Ok(rows)
}

/// Once a prefix of the hosts fails, every longer prefix fails the same way.
pub proof fn lemma_rows_err_stays(hs: Seq<MoView>, totals: Seq<(Seq<char>, TotalsView)>, k: int)
    requires
        0 <= k <= hs.len(),
        host_rows_of(hs.take(k), totals) is Err,
    ensures
        host_rows_of(hs, totals) == host_rows_of(hs.take(k), totals),
    decreases hs.len() - k,
{
    if k < hs.len() {
        assert(hs.take(k + 1).drop_last() =~= hs.take(k));
        lemma_rows_err_stays(hs, totals, k + 1);
    } else {
        assert(hs.take(k) =~= hs);
    }
}

/// The vHost sheet for one vCenter, from its VMs and its hosts.
pub fn vhost_rows(vms: &Vec<ManagedObject>, hosts: &Vec<ManagedObject>) -> (r: Result<Vec<Vec<Cell>>, String>)
    requires
        tally_fits(mos_view(vms@)),
        host_rows_fit(mos_view(hosts@), tally(mos_view(vms@))),
    ensures
        match r {
            Ok(rows) => host_rows_of(mos_view(hosts@), tally(mos_view(vms@))) == Ok::<Seq<Seq<CellValue>>, Seq<char>>(rows_view(rows@)),
            Err(e) => host_rows_of(mos_view(hosts@), tally(mos_view(vms@))) == Err::<Seq<Seq<CellValue>>, Seq<char>>(e@),
        },
{
    let totals = vm_totals_by_host(vms);
    host_rows(hosts, &totals)
}

/// Whether a host's arithmetic stays within `i64`.
pub fn host_fits(host: &ManagedObject, totals: HostVmTotals) -> (r: bool)
    ensures
        r == host_row_fits(host@, totals@),
{
    let cap_ok = match (host.i64_prop("summary.hardware.numCpuCores"), host.i64_prop("summary.hardware.cpuMhz")) {
        (Some(c), Some(m)) => c.checked_mul(m).is_some(),
        _ => true,
    };
    let vram_ok = totals.vram_mib.checked_mul(1024 * 1024).is_some();
    proof {
        let v = totals.vram_mib as int;
        assert(v * 1024 * 1024 == v * (1024 * 1024)) by (nonlinear_arith);
    }
    cap_ok && vram_ok
}

/// Whether every running total and product the vHost sheet computes stays
/// within `i64`.
pub fn vhost_fits(vms: &Vec<ManagedObject>, hosts: &Vec<ManagedObject>) -> (r: bool)
    ensures
        r == (tally_fits(mos_view(vms@)) && host_rows_fit(mos_view(hosts@), tally(mos_view(vms@)))),
{
    let totals = match super::common::checked_vm_totals(vms) {
        Some(t) => t,
        None => return false,
    };
    let ghost hv = mos_view(hosts@);
    let ghost tv = totals_entries(totals@);
    let mut i: usize = 0;
    while i < hosts.len()
        invariant
            i <= hosts@.len(),
            hv == mos_view(hosts@),
            tv == totals_entries(totals@),
            tv == tally(mos_view(vms@)),
            tally_fits(mos_view(vms@)),
            forall|k: int| 0 <= k < i ==> host_row_fits(#[trigger] hv[k], totals_for_of(tv, hv[k].moref)),
        decreases hosts.len() - i,
    {
        let t = totals_for(&totals, hosts[i].moref.as_str());
        proof { assert(hv[i as int] == hosts@[i as int]@); }
        if !host_fits(&hosts[i], t) {
            proof {
                assert(!host_row_fits(hv[i as int], totals_for_of(tv, hv[i as int].moref)));
                assert(!host_rows_fit(hv, tv));
            }
            return false;
        }
        i += 1;
    }
    true
}

/// The vHost sheet for one vCenter, or `None` when a running total or a
/// product would leave `i64`.
pub fn checked_vhost_rows(vms: &Vec<ManagedObject>, hosts: &Vec<ManagedObject>) -> (r: Option<Result<Vec<Vec<Cell>>, String>>)
    ensures
        match r {
            None => !(tally_fits(mos_view(vms@)) && host_rows_fit(mos_view(hosts@), tally(mos_view(vms@)))),
            Some(Ok(rows)) => tally_fits(mos_view(vms@)) && host_rows_fit(mos_view(hosts@), tally(mos_view(vms@)))
                && host_rows_of(mos_view(hosts@), tally(mos_view(vms@))) == Ok::<Seq<Seq<CellValue>>, Seq<char>>(rows_view(rows@)),
            Some(Err(e)) => tally_fits(mos_view(vms@)) && host_rows_fit(mos_view(hosts@), tally(mos_view(vms@)))
                && host_rows_of(mos_view(hosts@), tally(mos_view(vms@))) == Err::<Seq<Seq<CellValue>>, Seq<char>>(e@),
        },
{
    if vhost_fits(vms, hosts) {
        Some(vhost_rows(vms, hosts))
    } else {
        None
    }
}

/// Every vHost row has one cell per column.
pub proof fn lemma_host_rows_width(hs: Seq<MoView>, totals: Seq<(Seq<char>, TotalsView)>)
    ensures
        host_rows_of(hs, totals) matches Ok(rows) ==> crate::data::all_width(rows, column_spec().len() as int),
    decreases hs.len(),
{
    if hs.len() > 0 {
        lemma_host_rows_width(hs.drop_last(), totals);
        if let Ok(rows) = host_rows_of(hs, totals) {
            let prev = host_rows_of(hs.drop_last(), totals)->Ok_0;
            let row = host_row_of(hs.last(), totals_for_of(totals, hs.last().moref))->Ok_0;
            assert(rows == prev.push(row));
            assert(row.len() == column_spec().len());
            assert forall|i: int| 0 <= i < rows.len() implies (#[trigger] rows[i]).len() == column_spec().len() by {
                if i < prev.len() {
                    assert(rows[i] == prev[i]);
                }
            }
        }
    }
}
} // verus!
