//! The processor catalogue: the descriptions of the registered per-file
//! transformations that a caller can pick.

use vstd::prelude::*;

use crate::text::str_eq;

verus! {

/// A processor's description as handed to callers.
#[derive(Debug, Clone)]
pub struct ProcessorInfo {
    pub id: String,
    pub name: String,
    pub description: String,
    pub icon: Option<String>,
    pub version: String,
    pub available: bool,
}

/// A registered processor's description.
#[derive(Debug, Clone)]
pub struct ProcessorEntry {
    pub id: String,
    pub name: String,
    pub description: String,
    pub icon: Option<String>,
    pub version: String,
}

/// Two descriptions agree in every field, with a registered entry always
/// counted as available.
pub open spec fn info_of_entry(info: ProcessorInfo, entry: ProcessorEntry) -> bool {
    &&& info.id@ == entry.id@
    &&& info.name@ == entry.name@
    &&& info.description@ == entry.description@
    &&& (info.icon is Some) == (entry.icon is Some)
    &&& (info.icon matches Some(a) ==> (entry.icon matches Some(b) && a@ == b@))
    &&& info.version@ == entry.version@
    &&& info.available
}

/// The position of the first entry with the given identifier, if any.
pub open spec fn spec_first_processor(entries: Seq<ProcessorEntry>, id: Seq<char>) -> Option<int>
    decreases entries.len(),
{
    if entries.len() == 0 {
        None
    } else if entries[0].id@ == id {
        Some(0int)
    } else {
        match spec_first_processor(entries.subrange(1, entries.len() as int), id) {
            Some(j) => Some(j + 1),
            None => None,
        }
    }
}

proof fn lemma_first_processor_at(entries: Seq<ProcessorEntry>, id: Seq<char>, i: int)
    requires
        0 <= i < entries.len(),
        forall|k: int| 0 <= k < i ==> (#[trigger] entries[k]).id@ != id,
        entries[i].id@ == id,
    ensures
        spec_first_processor(entries, id) == Some(i),
    decreases i,
{
    if i > 0 {
        let rest = entries.subrange(1, entries.len() as int);
        assert(forall|k: int| 0 <= k < i - 1 ==> rest[k] == entries[k + 1]);
        lemma_first_processor_at(rest, id, i - 1);
    }
}

proof fn lemma_first_processor_none(entries: Seq<ProcessorEntry>, id: Seq<char>)
    requires
        forall|k: int| 0 <= k < entries.len() ==> (#[trigger] entries[k]).id@ != id,
    ensures
        spec_first_processor(entries, id) is None,
    decreases entries.len(),
{
    if entries.len() > 0 {
        let rest = entries.subrange(1, entries.len() as int);
        assert(forall|k: int| 0 <= k < rest.len() ==> rest[k] == entries[k + 1]);
        lemma_first_processor_none(rest, id);
    }
}

/// The catalogue of registered processors.
#[derive(Debug)]
pub struct ProcessorManager {
    pub processors: Vec<ProcessorEntry>,
}

impl ProcessorManager {
    /// Builds the catalogue with the three example processors registered:
    /// the cargo analysis export, the auxiliary-material processing, and the
    /// worksheet structure analyzer.
    pub fn new() -> (m: ProcessorManager)
        ensures
            m.processors@.len() == 3,
            m.processors@[0].id@ == "export_cargo_analysis"@,
            m.processors@[1].id@ == "auxiliary_material"@,
            m.processors@[2].id@ == "excel_structure_analyzer"@,
    {
        let mut manager = ProcessorManager { processors: Vec::new() };
        manager.register_example_processors();
        manager
    }

    /// Registers the three example processors, in catalogue order.
    fn register_example_processors(&mut self)
        ensures
            final(self).processors@.len() == old(self).processors@.len() + 3,
            final(self).processors@[final(self).processors@.len() - 3].id@
                == "export_cargo_analysis"@,
            final(self).processors@[final(self).processors@.len() - 2].id@
                == "auxiliary_material"@,
            final(self).processors@[final(self).processors@.len() - 1].id@
                == "excel_structure_analyzer"@,
            forall|k: int|
                0 <= k < old(self).processors@.len() ==> final(self).processors@[k] == old(
                    self,
                ).processors@[k],
    {
        self.processors.push(
            ProcessorEntry {
                id: "export_cargo_analysis".to_owned(),
                name: "导出货物分析表".to_owned(),
                description: "分析货物数据并生成分析报表".to_owned(),
                icon: Some("📦".to_owned()),
                version: "1.0.0".to_owned(),
            },
        );
        self.processors.push(
            ProcessorEntry {
                id: "auxiliary_material".to_owned(),
                name: "辅材处理".to_owned(),
                description: "处理和整理辅材相关数据".to_owned(),
                icon: Some("🔧".to_owned()),
                version: "1.0.0".to_owned(),
            },
        );
        self.processors.push(
            ProcessorEntry {
                id: "excel_structure_analyzer".to_owned(),
                name: "Excel结构分析器".to_owned(),
                description: "分析Excel文件的单个Sheet结构".to_owned(),
                icon: Some("🔍".to_owned()),
                version: "1.0.0".to_owned(),
            },
        );
    }

    /// The first registered processor with the given identifier, if any.
    #[verifier::loop_isolation(false)]
    pub fn get_processor(&self, id: &str) -> (r: Option<&ProcessorEntry>)
        ensures
            (r is Some) == (spec_first_processor(self.processors@, id@) is Some),
            r matches Some(e) ==> spec_first_processor(self.processors@, id@) matches Some(j)
                && *e == self.processors@[j],
    {
        let n = self.processors.len();
        let mut i: usize = 0;
        while i < n
            invariant
                i <= n,
                n == self.processors@.len(),
                forall|k: int| 0 <= k < i ==> (#[trigger] self.processors@[k]).id@ != id@,
            decreases n - i,
        {
            let entry = &self.processors[i];
            if str_eq(entry.id.as_str(), id) {
                proof {
                    lemma_first_processor_at(self.processors@, id@, i as int);
                }
                return Some(entry);
            }
            i += 1;
        }
        proof {
            lemma_first_processor_none(self.processors@, id@);
        }
        None
    }

    /// The descriptions of every registered processor, in catalogue order,
    /// each marked available.
    #[verifier::loop_isolation(false)]
    pub fn list_processors(&self) -> (r: Vec<ProcessorInfo>)
        ensures
            r@.len() == self.processors@.len(),
            forall|k: int|
                0 <= k < r@.len() ==> info_of_entry(#[trigger] r@[k], self.processors@[k]),
    {
        let n = self.processors.len();
        let mut r: Vec<ProcessorInfo> = Vec::new();
        let mut i: usize = 0;
        while i < n
            invariant
                i <= n,
                n == self.processors@.len(),
                r@.len() == i,
                forall|k: int|
                    0 <= k < i ==> info_of_entry(#[trigger] r@[k], self.processors@[k]),
            decreases n - i,
        {
            let entry = &self.processors[i];
            let icon = match &entry.icon {
                Some(s) => Some(s.clone()),
                None => None,
            };
            r.push(
                ProcessorInfo {
                    id: entry.id.clone(),
                    name: entry.name.clone(),
                    description: entry.description.clone(),
                    icon,
                    version: entry.version.clone(),
                    available: true,
                },
            );
            i += 1;
        }
        r
    }

    /// Whether a processor with the given identifier is registered.
    #[verifier::loop_isolation(false)]
    pub fn has_processor(&self, id: &str) -> (r: bool)
        ensures
            r == (spec_first_processor(self.processors@, id@) is Some),
    {
        let found = self.get_processor(id);
        match found {
            Some(_) => true,
            None => false,
        }
    }

    /// How many processors are registered.
    pub fn processor_count(&self) -> (n: usize)
        ensures
            n == self.processors@.len(),
    {
        self.processors.len()
    }
}

impl Default for ProcessorManager {
    /// The catalogue with the three example processors registered.
    fn default() -> (m: ProcessorManager)
        ensures
            m.processors@.len() == 3,
    {
        ProcessorManager::new()
    }
}

} // verus!
