//! Supported laptop table, keyed by USB product id.
//!
//! Imported from Razer-Control's `laptops.json` (GPL-2.0), the maintained
//! continuation of razer-laptop-control. Feature flags cover CPU overclock,
//! the battery charge limiter, and the lid logo LED.
//!
//! Listed PIDs are recognized models with `verified: true`; unknown PIDs get
//! [`fallback`] limits and `verified: false`.
use vstd::prelude::*;

verus! {

#[derive(Clone, Copy, Debug, PartialEq, Eq)]
pub struct LaptopModel {
    pub pid: u16,
    pub name: &'static str,
    pub fan_rpm_min: u16,
    pub fan_rpm_max: u16,
    /// Supports CPU overclock boost level (feature "boost").
    pub has_cpu_boost_oc: bool,
    /// Supports the Battery Health Optimizer charge limiter (feature "bho").
    pub has_bho: bool,
    /// Has a lid logo LED (feature "logo").
    pub has_logo: bool,
}

pub open spec fn entry(
    pid: u16,
    name: &'static str,
    fan_rpm_min: u16,
    fan_rpm_max: u16,
    has_cpu_boost_oc: bool,
    has_bho: bool,
    has_logo: bool,
) -> LaptopModel {
    LaptopModel { pid, name, fan_rpm_min, fan_rpm_max, has_cpu_boost_oc, has_bho, has_logo }
}

fn model(
    pid: u16,
    name: &'static str,
    fan_rpm_min: u16,
    fan_rpm_max: u16,
    has_cpu_boost_oc: bool,
    has_bho: bool,
    has_logo: bool,
) -> (r: LaptopModel)
    ensures
        r == entry(pid, name, fan_rpm_min, fan_rpm_max, has_cpu_boost_oc, has_bho, has_logo),
{
    LaptopModel { pid, name, fan_rpm_min, fan_rpm_max, has_cpu_boost_oc, has_bho, has_logo }
}

/// The recognized models.
pub open spec fn model_table() -> Seq<LaptopModel> {
    seq![
        entry(0x0205, "Razer Blade Stealth 2015", 3500, 5000, false, false, true),
        entry(0x020F, "Razer Blade QHD", 3500, 5000, false, false, true),
        entry(0x0210, "Razer Blade Pro 2017 v2", 3500, 5000, false, false, true),
        entry(0x0220, "Razer Blade Stealth Late 2016", 3500, 5000, false, false, true),
        entry(0x0224, "Razer Blade 15 2016", 3500, 5000, false, false, true),
        entry(0x0225, "Razer Blade Pro 2017", 3500, 5000, false, false, true),
        entry(0x022D, "Razer Blade Stealth 2017", 3500, 5000, false, false, true),
        entry(0x022F, "Razer Blade Pro 2018 FHD", 3500, 5000, false, false, true),
        entry(0x0232, "Razer Blade Stealth Late 2017", 3500, 5000, false, false, true),
        entry(0x0233, "Razer Blade 15 2018 Advanced", 3500, 5000, false, false, true),
        entry(0x0234, "Razer Blade Pro 2019", 3500, 5300, false, false, true),
        entry(0x0239, "Razer Blade Stealth 2019", 3500, 5300, false, false, true),
        entry(0x023A, "Razer Blade 15 2019 Advanced", 3500, 5300, false, false, true),
        entry(0x023B, "Razer Blade 15 2018 Base", 3500, 5000, false, false, true),
        entry(0x0240, "Razer Blade 15 2018 Mercury", 3500, 5000, false, false, true),
        entry(0x0245, "Razer Blade 15 2019 Mercury", 3500, 5300, false, false, true),
        entry(0x0246, "Razer Blade 15 2019 Base", 3500, 5000, false, false, true),
        entry(0x024A, "Razer Blade Stealth 2019 GTX", 3500, 5000, false, false, true),
        entry(0x024B, "Razer Blade 15 Late 2019 Advanced", 3500, 5300, false, false, true),
        entry(0x024C, "Razer Blade Pro Late 2019", 3500, 5300, false, false, true),
        entry(0x024D, "Razer Blade 15 Studio Edition 2019", 3500, 5300, false, false, true),
        entry(0x0252, "Razer Blade Stealth 2020", 3500, 5000, false, false, true),
        entry(0x0253, "Razer Blade 15 2020 Advanced", 3500, 5300, true, false, true),
        entry(0x0255, "Razer Blade 15 2020 Base", 3500, 5000, false, false, true),
        entry(0x0256, "Razer Blade Pro 2020", 3500, 5300, false, false, true),
        entry(0x0259, "Razer Blade Stealth Late 2020", 3500, 5000, false, false, true),
        entry(0x0268, "Razer Blade 15 Late 2020 Base", 3500, 5000, false, false, true),
        entry(0x026A, "Razer Book 13 2020", 3500, 5000, false, false, false),
        entry(0x026D, "Razer Blade 15 Late 2021 Advanced", 3500, 5000, true, false, true),
        entry(0x026E, "Razer Blade Pro 17 Early 2021", 2300, 4300, true, false, true),
        entry(0x026F, "Razer Blade 15 2021 Base", 3500, 5000, false, false, true),
        entry(0x0270, "Razer Blade 14 2021", 3500, 5000, false, false, true),
        entry(0x0276, "Razer Blade 15 2021 Advanced", 3500, 5000, true, false, true),
        entry(0x0279, "Razer Blade Pro 17 Mid 2021", 2300, 4300, true, false, true),
        entry(0x027A, "Razer Blade 15 Late 2021 Base", 3500, 5000, false, false, true),
        entry(0x028A, "Razer Blade 15 Early 2022 Advanced", 3500, 5000, true, true, true),
        entry(0x028B, "Razer Blade 17 2022", 3500, 5000, true, false, true),
        entry(0x028C, "Razer Blade 14 2022", 3500, 5000, true, true, true),
        entry(0x029D, "Razer Blade 14 2023", 2200, 5000, true, true, true),
        entry(0x029E, "Razer Blade 15 2023", 2200, 5000, true, true, true),
        entry(0x029F, "Razer Blade 16 2023", 2200, 5000, true, true, true),
        entry(0x02A0, "Razer Blade 18 2023", 2200, 5000, true, true, true),
        entry(0x02B6, "Razer Blade 14 2024", 2200, 5000, true, true, true),
        entry(0x02B7, "Razer Blade 16 2024", 2200, 5000, true, true, true),
        entry(0x02B8, "Razer Blade 18 2024", 2200, 5000, true, true, true),
        entry(0x02C5, "Razer Blade 14 2025", 2200, 5000, true, true, true),
        entry(0x02C6, "Razer Blade 16 2025", 2200, 5000, true, true, true),
        entry(0x02C7, "Razer Blade 18 2025", 2200, 5000, true, true, true),
    ]
}

/// The recognized models, in table order.
pub fn models() -> (r: Vec<LaptopModel>)
    ensures
        r@ == model_table(),
{
    let mut v: Vec<LaptopModel> = Vec::new();
    v.push(model(0x0205, "Razer Blade Stealth 2015", 3500, 5000, false, false, true));
    v.push(model(0x020F, "Razer Blade QHD", 3500, 5000, false, false, true));
    v.push(model(0x0210, "Razer Blade Pro 2017 v2", 3500, 5000, false, false, true));
    v.push(model(0x0220, "Razer Blade Stealth Late 2016", 3500, 5000, false, false, true));
    v.push(model(0x0224, "Razer Blade 15 2016", 3500, 5000, false, false, true));
    v.push(model(0x0225, "Razer Blade Pro 2017", 3500, 5000, false, false, true));
    v.push(model(0x022D, "Razer Blade Stealth 2017", 3500, 5000, false, false, true));
    v.push(model(0x022F, "Razer Blade Pro 2018 FHD", 3500, 5000, false, false, true));
    v.push(model(0x0232, "Razer Blade Stealth Late 2017", 3500, 5000, false, false, true));
    v.push(model(0x0233, "Razer Blade 15 2018 Advanced", 3500, 5000, false, false, true));
    v.push(model(0x0234, "Razer Blade Pro 2019", 3500, 5300, false, false, true));
    v.push(model(0x0239, "Razer Blade Stealth 2019", 3500, 5300, false, false, true));
    v.push(model(0x023A, "Razer Blade 15 2019 Advanced", 3500, 5300, false, false, true));
    v.push(model(0x023B, "Razer Blade 15 2018 Base", 3500, 5000, false, false, true));
    v.push(model(0x0240, "Razer Blade 15 2018 Mercury", 3500, 5000, false, false, true));
    v.push(model(0x0245, "Razer Blade 15 2019 Mercury", 3500, 5300, false, false, true));
    v.push(model(0x0246, "Razer Blade 15 2019 Base", 3500, 5000, false, false, true));
    v.push(model(0x024A, "Razer Blade Stealth 2019 GTX", 3500, 5000, false, false, true));
    v.push(model(0x024B, "Razer Blade 15 Late 2019 Advanced", 3500, 5300, false, false, true));
    v.push(model(0x024C, "Razer Blade Pro Late 2019", 3500, 5300, false, false, true));
    v.push(model(0x024D, "Razer Blade 15 Studio Edition 2019", 3500, 5300, false, false, true));
    v.push(model(0x0252, "Razer Blade Stealth 2020", 3500, 5000, false, false, true));
    v.push(model(0x0253, "Razer Blade 15 2020 Advanced", 3500, 5300, true, false, true));
    v.push(model(0x0255, "Razer Blade 15 2020 Base", 3500, 5000, false, false, true));
    v.push(model(0x0256, "Razer Blade Pro 2020", 3500, 5300, false, false, true));
    v.push(model(0x0259, "Razer Blade Stealth Late 2020", 3500, 5000, false, false, true));
    v.push(model(0x0268, "Razer Blade 15 Late 2020 Base", 3500, 5000, false, false, true));
    v.push(model(0x026A, "Razer Book 13 2020", 3500, 5000, false, false, false));
    v.push(model(0x026D, "Razer Blade 15 Late 2021 Advanced", 3500, 5000, true, false, true));
    v.push(model(0x026E, "Razer Blade Pro 17 Early 2021", 2300, 4300, true, false, true));
    v.push(model(0x026F, "Razer Blade 15 2021 Base", 3500, 5000, false, false, true));
    v.push(model(0x0270, "Razer Blade 14 2021", 3500, 5000, false, false, true));
    v.push(model(0x0276, "Razer Blade 15 2021 Advanced", 3500, 5000, true, false, true));
    v.push(model(0x0279, "Razer Blade Pro 17 Mid 2021", 2300, 4300, true, false, true));
    v.push(model(0x027A, "Razer Blade 15 Late 2021 Base", 3500, 5000, false, false, true));
    v.push(model(0x028A, "Razer Blade 15 Early 2022 Advanced", 3500, 5000, true, true, true));
    v.push(model(0x028B, "Razer Blade 17 2022", 3500, 5000, true, false, true));
    v.push(model(0x028C, "Razer Blade 14 2022", 3500, 5000, true, true, true));
    v.push(model(0x029D, "Razer Blade 14 2023", 2200, 5000, true, true, true));
    v.push(model(0x029E, "Razer Blade 15 2023", 2200, 5000, true, true, true));
    v.push(model(0x029F, "Razer Blade 16 2023", 2200, 5000, true, true, true));
    v.push(model(0x02A0, "Razer Blade 18 2023", 2200, 5000, true, true, true));
    v.push(model(0x02B6, "Razer Blade 14 2024", 2200, 5000, true, true, true));
    v.push(model(0x02B7, "Razer Blade 16 2024", 2200, 5000, true, true, true));
    v.push(model(0x02B8, "Razer Blade 18 2024", 2200, 5000, true, true, true));
    v.push(model(0x02C5, "Razer Blade 14 2025", 2200, 5000, true, true, true));
    v.push(model(0x02C6, "Razer Blade 16 2025", 2200, 5000, true, true, true));
    v.push(model(0x02C7, "Razer Blade 18 2025", 2200, 5000, true, true, true));
    assert(v@ =~= model_table());
    v
}


/// Conservative limits for Razer laptops not (yet) in the table.
pub open spec fn spec_fallback() -> LaptopModel {
    entry(0x0000, "Unknown Razer laptop", 2200, 5000, false, false, false)
}

/// Conservative limits for Razer laptops not (yet) in the table.
pub fn fallback() -> (r: LaptopModel)
    ensures
        r == spec_fallback(),
{
    model(0x0000, "Unknown Razer laptop", 2200, 5000, false, false, false)
}

/// The index of the first table entry with `pid` at or after `i`.
pub open spec fn find_pid(table: Seq<LaptopModel>, pid: u16, i: int) -> Option<int>
    decreases table.len() - i,
{
    if i < 0 || i >= table.len() {
        None
    } else if table[i].pid == pid {
        Some(i)
    } else {
        find_pid(table, pid, i + 1)
    }
}

/// The table entry for `pid`, if the model is recognized.
pub open spec fn spec_by_pid(pid: u16) -> Option<LaptopModel> {
    match find_pid(model_table(), pid, 0) {
        Some(i) => Some(model_table()[i]),
        None => None,
    }
}

pub fn by_pid(pid: u16) -> (r: Option<LaptopModel>)
    ensures
        r == spec_by_pid(pid),
{
    let table = models();
    let mut i: usize = 0;
    while i < table.len()
        invariant
            table@ == model_table(),
            0 <= i <= table@.len(),
            find_pid(model_table(), pid, 0) == find_pid(model_table(), pid, i as int),
        decreases table@.len() - i,
    {
        if table[i].pid == pid {
            return Some(table[i]);
        }
        i = i + 1;
    }
    None
}

/// A model is plausible: a fan range between 2000 and 6000 RPM.
pub open spec fn plausible(m: LaptopModel) -> bool {
    2000 <= m.fan_rpm_min < m.fan_rpm_max <= 6000
}

proof fn lemma_sorted_distinct(t: Seq<LaptopModel>)
    requires
        forall|i: int| 0 <= i < t.len() - 1 ==> #[trigger] t[i].pid < t[i + 1].pid,
    ensures
        forall|i: int, j: int| 0 <= i < j < t.len() ==> t[i].pid < t[j].pid,
{
    assert forall|i: int, j: int| 0 <= i < j < t.len() implies t[i].pid < t[j].pid by {
        lemma_sorted_step(t, i, j);
    }
}

proof fn lemma_sorted_step(t: Seq<LaptopModel>, i: int, j: int)
    requires
        forall|k: int| 0 <= k < t.len() - 1 ==> #[trigger] t[k].pid < t[k + 1].pid,
        0 <= i < j < t.len(),
    ensures
        t[i].pid < t[j].pid,
    decreases j - i,
{
    if j > i + 1 {
        lemma_sorted_step(t, i, j - 1);
        assert(t[j - 1].pid < t[j].pid);
    } else {
        assert(t[i].pid < t[i + 1].pid);
    }
}

/// The table lists 48 models, each PID once (in increasing order), each
/// with a plausible fan range; so a recognized PID names exactly one model.
#[verifier::rlimit(100)]
pub proof fn lemma_table_is_sane()
    ensures
        model_table().len() == 48,
        forall|i: int, j: int|
            0 <= i < j < model_table().len() ==> model_table()[i].pid != model_table()[j].pid,
        forall|i: int| 0 <= i < model_table().len() ==> plausible(#[trigger] model_table()[i]),
        plausible(spec_fallback()),
{
    let t = model_table();
    assert(t.len() == 48);
    assert(plausible(t[0]));
    assert(plausible(t[1]));
    assert(plausible(t[2]));
    assert(plausible(t[3]));
    assert(plausible(t[4]));
    assert(plausible(t[5]));
    assert(plausible(t[6]));
    assert(plausible(t[7]));
    assert(plausible(t[8]));
    assert(plausible(t[9]));
    assert(plausible(t[10]));
    assert(plausible(t[11]));
    assert(plausible(t[12]));
    assert(plausible(t[13]));
    assert(plausible(t[14]));
    assert(plausible(t[15]));
    assert(plausible(t[16]));
    assert(plausible(t[17]));
    assert(plausible(t[18]));
    assert(plausible(t[19]));
    assert(plausible(t[20]));
    assert(plausible(t[21]));
    assert(plausible(t[22]));
    assert(plausible(t[23]));
    assert(plausible(t[24]));
    assert(plausible(t[25]));
    assert(plausible(t[26]));
    assert(plausible(t[27]));
    assert(plausible(t[28]));
    assert(plausible(t[29]));
    assert(plausible(t[30]));
    assert(plausible(t[31]));
    assert(plausible(t[32]));
    assert(plausible(t[33]));
    assert(plausible(t[34]));
    assert(plausible(t[35]));
    assert(plausible(t[36]));
    assert(plausible(t[37]));
    assert(plausible(t[38]));
    assert(plausible(t[39]));
    assert(plausible(t[40]));
    assert(plausible(t[41]));
    assert(plausible(t[42]));
    assert(plausible(t[43]));
    assert(plausible(t[44]));
    assert(plausible(t[45]));
    assert(plausible(t[46]));
    assert(plausible(t[47]));
    assert(t[0].pid < t[1].pid);
    assert(t[1].pid < t[2].pid);
    assert(t[2].pid < t[3].pid);
    assert(t[3].pid < t[4].pid);
    assert(t[4].pid < t[5].pid);
    assert(t[5].pid < t[6].pid);
    assert(t[6].pid < t[7].pid);
    assert(t[7].pid < t[8].pid);
    assert(t[8].pid < t[9].pid);
    assert(t[9].pid < t[10].pid);
    assert(t[10].pid < t[11].pid);
    assert(t[11].pid < t[12].pid);
    assert(t[12].pid < t[13].pid);
    assert(t[13].pid < t[14].pid);
    assert(t[14].pid < t[15].pid);
    assert(t[15].pid < t[16].pid);
    assert(t[16].pid < t[17].pid);
    assert(t[17].pid < t[18].pid);
    assert(t[18].pid < t[19].pid);
    assert(t[19].pid < t[20].pid);
    assert(t[20].pid < t[21].pid);
    assert(t[21].pid < t[22].pid);
    assert(t[22].pid < t[23].pid);
    assert(t[23].pid < t[24].pid);
    assert(t[24].pid < t[25].pid);
    assert(t[25].pid < t[26].pid);
    assert(t[26].pid < t[27].pid);
    assert(t[27].pid < t[28].pid);
    assert(t[28].pid < t[29].pid);
    assert(t[29].pid < t[30].pid);
    assert(t[30].pid < t[31].pid);
    assert(t[31].pid < t[32].pid);
    assert(t[32].pid < t[33].pid);
    assert(t[33].pid < t[34].pid);
    assert(t[34].pid < t[35].pid);
    assert(t[35].pid < t[36].pid);
    assert(t[36].pid < t[37].pid);
    assert(t[37].pid < t[38].pid);
    assert(t[38].pid < t[39].pid);
    assert(t[39].pid < t[40].pid);
    assert(t[40].pid < t[41].pid);
    assert(t[41].pid < t[42].pid);
    assert(t[42].pid < t[43].pid);
    assert(t[43].pid < t[44].pid);
    assert(t[44].pid < t[45].pid);
    assert(t[45].pid < t[46].pid);
    assert(t[46].pid < t[47].pid);
    assert(forall|i: int| 0 <= i < t.len() - 1 ==> #[trigger] t[i].pid < t[i + 1].pid) by {
        assert forall|i: int| 0 <= i < t.len() - 1 implies #[trigger] t[i].pid < t[i + 1].pid by {
            assert(0 <= i < 47);
        }
    }
    lemma_sorted_distinct(t);
}

/// Whether `name` starts with "Razer ".
pub open spec fn razer_name(name: Seq<char>) -> bool {
    name.len() >= 6 && name.subrange(0, 6) == "Razer "@
}

/// Every model in the table is named "Razer ...".
#[verifier::rlimit(100)]
pub proof fn lemma_table_names_are_razer()
    ensures
        forall|i: int| 0 <= i < model_table().len() ==> razer_name(#[trigger] model_table()[i].name@),
{
    let t = model_table();
    reveal_strlit("Razer ");
    reveal_strlit("Razer Blade Stealth 2015");
    assert(razer_name(t[0].name@)) by {
        assert(t[0].name@.subrange(0, 6) =~= "Razer "@);
    }
    reveal_strlit("Razer Blade QHD");
    assert(razer_name(t[1].name@)) by {
        assert(t[1].name@.subrange(0, 6) =~= "Razer "@);
    }
    reveal_strlit("Razer Blade Pro 2017 v2");
    assert(razer_name(t[2].name@)) by {
        assert(t[2].name@.subrange(0, 6) =~= "Razer "@);
    }
    reveal_strlit("Razer Blade Stealth Late 2016");
    assert(razer_name(t[3].name@)) by {
        assert(t[3].name@.subrange(0, 6) =~= "Razer "@);
    }
    reveal_strlit("Razer Blade 15 2016");
    assert(razer_name(t[4].name@)) by {
        assert(t[4].name@.subrange(0, 6) =~= "Razer "@);
    }
    reveal_strlit("Razer Blade Pro 2017");
    assert(razer_name(t[5].name@)) by {
        assert(t[5].name@.subrange(0, 6) =~= "Razer "@);
    }
    reveal_strlit("Razer Blade Stealth 2017");
    assert(razer_name(t[6].name@)) by {
        assert(t[6].name@.subrange(0, 6) =~= "Razer "@);
    }
    reveal_strlit("Razer Blade Pro 2018 FHD");
    assert(razer_name(t[7].name@)) by {
        assert(t[7].name@.subrange(0, 6) =~= "Razer "@);
    }
    reveal_strlit("Razer Blade Stealth Late 2017");
    assert(razer_name(t[8].name@)) by {
        assert(t[8].name@.subrange(0, 6) =~= "Razer "@);
    }
    reveal_strlit("Razer Blade 15 2018 Advanced");
    assert(razer_name(t[9].name@)) by {
        assert(t[9].name@.subrange(0, 6) =~= "Razer "@);
    }
    reveal_strlit("Razer Blade Pro 2019");
    assert(razer_name(t[10].name@)) by {
        assert(t[10].name@.subrange(0, 6) =~= "Razer "@);
    }
    reveal_strlit("Razer Blade Stealth 2019");
    assert(razer_name(t[11].name@)) by {
        assert(t[11].name@.subrange(0, 6) =~= "Razer "@);
    }
    reveal_strlit("Razer Blade 15 2019 Advanced");
    assert(razer_name(t[12].name@)) by {
        assert(t[12].name@.subrange(0, 6) =~= "Razer "@);
    }
    reveal_strlit("Razer Blade 15 2018 Base");
    assert(razer_name(t[13].name@)) by {
        assert(t[13].name@.subrange(0, 6) =~= "Razer "@);
    }
    reveal_strlit("Razer Blade 15 2018 Mercury");
    assert(razer_name(t[14].name@)) by {
        assert(t[14].name@.subrange(0, 6) =~= "Razer "@);
    }
    reveal_strlit("Razer Blade 15 2019 Mercury");
    assert(razer_name(t[15].name@)) by {
        assert(t[15].name@.subrange(0, 6) =~= "Razer "@);
    }
    reveal_strlit("Razer Blade 15 2019 Base");
    assert(razer_name(t[16].name@)) by {
        assert(t[16].name@.subrange(0, 6) =~= "Razer "@);
    }
    reveal_strlit("Razer Blade Stealth 2019 GTX");
    assert(razer_name(t[17].name@)) by {
        assert(t[17].name@.subrange(0, 6) =~= "Razer "@);
    }
    reveal_strlit("Razer Blade 15 Late 2019 Advanced");
    assert(razer_name(t[18].name@)) by {
        assert(t[18].name@.subrange(0, 6) =~= "Razer "@);
    }
    reveal_strlit("Razer Blade Pro Late 2019");
    assert(razer_name(t[19].name@)) by {
        assert(t[19].name@.subrange(0, 6) =~= "Razer "@);
    }
    reveal_strlit("Razer Blade 15 Studio Edition 2019");
    assert(razer_name(t[20].name@)) by {
        assert(t[20].name@.subrange(0, 6) =~= "Razer "@);
    }
    reveal_strlit("Razer Blade Stealth 2020");
    assert(razer_name(t[21].name@)) by {
        assert(t[21].name@.subrange(0, 6) =~= "Razer "@);
    }
    reveal_strlit("Razer Blade 15 2020 Advanced");
    assert(razer_name(t[22].name@)) by {
        assert(t[22].name@.subrange(0, 6) =~= "Razer "@);
    }
    reveal_strlit("Razer Blade 15 2020 Base");
    assert(razer_name(t[23].name@)) by {
        assert(t[23].name@.subrange(0, 6) =~= "Razer "@);
    }
    reveal_strlit("Razer Blade Pro 2020");
    assert(razer_name(t[24].name@)) by {
        assert(t[24].name@.subrange(0, 6) =~= "Razer "@);
    }
    reveal_strlit("Razer Blade Stealth Late 2020");
    assert(razer_name(t[25].name@)) by {
        assert(t[25].name@.subrange(0, 6) =~= "Razer "@);
    }
    reveal_strlit("Razer Blade 15 Late 2020 Base");
    assert(razer_name(t[26].name@)) by {
        assert(t[26].name@.subrange(0, 6) =~= "Razer "@);
    }
    reveal_strlit("Razer Book 13 2020");
    assert(razer_name(t[27].name@)) by {
        assert(t[27].name@.subrange(0, 6) =~= "Razer "@);
    }
    reveal_strlit("Razer Blade 15 Late 2021 Advanced");
    assert(razer_name(t[28].name@)) by {
        assert(t[28].name@.subrange(0, 6) =~= "Razer "@);
    }
    reveal_strlit("Razer Blade Pro 17 Early 2021");
    assert(razer_name(t[29].name@)) by {
        assert(t[29].name@.subrange(0, 6) =~= "Razer "@);
    }
    reveal_strlit("Razer Blade 15 2021 Base");
    assert(razer_name(t[30].name@)) by {
        assert(t[30].name@.subrange(0, 6) =~= "Razer "@);
    }
    reveal_strlit("Razer Blade 14 2021");
    assert(razer_name(t[31].name@)) by {
        assert(t[31].name@.subrange(0, 6) =~= "Razer "@);
    }
    reveal_strlit("Razer Blade 15 2021 Advanced");
    assert(razer_name(t[32].name@)) by {
        assert(t[32].name@.subrange(0, 6) =~= "Razer "@);
    }
    reveal_strlit("Razer Blade Pro 17 Mid 2021");
    assert(razer_name(t[33].name@)) by {
        assert(t[33].name@.subrange(0, 6) =~= "Razer "@);
    }
    reveal_strlit("Razer Blade 15 Late 2021 Base");
    assert(razer_name(t[34].name@)) by {
        assert(t[34].name@.subrange(0, 6) =~= "Razer "@);
    }
    reveal_strlit("Razer Blade 15 Early 2022 Advanced");
    assert(razer_name(t[35].name@)) by {
        assert(t[35].name@.subrange(0, 6) =~= "Razer "@);
    }
    reveal_strlit("Razer Blade 17 2022");
    assert(razer_name(t[36].name@)) by {
        assert(t[36].name@.subrange(0, 6) =~= "Razer "@);
    }
    reveal_strlit("Razer Blade 14 2022");
    assert(razer_name(t[37].name@)) by {
        assert(t[37].name@.subrange(0, 6) =~= "Razer "@);
    }
    reveal_strlit("Razer Blade 14 2023");
    assert(razer_name(t[38].name@)) by {
        assert(t[38].name@.subrange(0, 6) =~= "Razer "@);
    }
    reveal_strlit("Razer Blade 15 2023");
    assert(razer_name(t[39].name@)) by {
        assert(t[39].name@.subrange(0, 6) =~= "Razer "@);
    }
    reveal_strlit("Razer Blade 16 2023");
    assert(razer_name(t[40].name@)) by {
        assert(t[40].name@.subrange(0, 6) =~= "Razer "@);
    }
    reveal_strlit("Razer Blade 18 2023");
    assert(razer_name(t[41].name@)) by {
        assert(t[41].name@.subrange(0, 6) =~= "Razer "@);
    }
    reveal_strlit("Razer Blade 14 2024");
    assert(razer_name(t[42].name@)) by {
        assert(t[42].name@.subrange(0, 6) =~= "Razer "@);
    }
    reveal_strlit("Razer Blade 16 2024");
    assert(razer_name(t[43].name@)) by {
        assert(t[43].name@.subrange(0, 6) =~= "Razer "@);
    }
    reveal_strlit("Razer Blade 18 2024");
    assert(razer_name(t[44].name@)) by {
        assert(t[44].name@.subrange(0, 6) =~= "Razer "@);
    }
    reveal_strlit("Razer Blade 14 2025");
    assert(razer_name(t[45].name@)) by {
        assert(t[45].name@.subrange(0, 6) =~= "Razer "@);
    }
    reveal_strlit("Razer Blade 16 2025");
    assert(razer_name(t[46].name@)) by {
        assert(t[46].name@.subrange(0, 6) =~= "Razer "@);
    }
    reveal_strlit("Razer Blade 18 2025");
    assert(razer_name(t[47].name@)) by {
        assert(t[47].name@.subrange(0, 6) =~= "Razer "@);
    }
    assert forall|i: int| 0 <= i < t.len() implies razer_name(#[trigger] t[i].name@) by {
        assert(0 <= i < 48);
    }
}

/// A recognized PID finds its model, named "Razer ..." with a plausible fan
/// range, and an unrecognized one finds nothing.
pub proof fn lemma_by_pid_finds_the_entry(pid: u16)
    ensures
        spec_by_pid(pid) matches Some(m) ==> m.pid == pid && razer_name(m.name@) && plausible(m),
        (exists|i: int| 0 <= i < model_table().len() && model_table()[i].pid == pid) <==> spec_by_pid(pid) is Some,
{
    lemma_find_pid(model_table(), pid, 0);
    lemma_table_names_are_razer();
    lemma_table_is_sane();
}

proof fn lemma_find_pid(t: Seq<LaptopModel>, pid: u16, i: int)
    requires
        0 <= i <= t.len(),
    ensures
        find_pid(t, pid, i) matches Some(k) ==> i <= k < t.len() && t[k].pid == pid,
        (exists|k: int| i <= k < t.len() && t[k].pid == pid) <==> find_pid(t, pid, i) is Some,
    decreases t.len() - i,
{
    if i < t.len() {
        lemma_find_pid(t, pid, i + 1);
        if t[i].pid != pid {
            assert forall|k: int| i <= k < t.len() && t[k].pid == pid implies i + 1 <= k by {}
        }
    }
}

} // verus!
