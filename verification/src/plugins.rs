//! Plugins: named groups of functions, and the collection that files them
//! by name.

use crate::filing::Table;
use vstd::prelude::*;

verus! {

/// What is filed under a name of its own.
trait Named {
    /// The name to file this under.
    spec fn label(&self) -> Seq<char>;

    /// A copy of the name to file this under.
    fn name_to_file(&self) -> (name: String)
        ensures
            name@ == self.label(),
    ;
}

/// The items of `items`, each with its label.
spec fn labelled<T: Named>(items: Seq<T>) -> Seq<(Seq<char>, T)> {
    items.map_values(|item: T| (item.label(), item))
}

/// Files the items by their labels, from the first on: of two items with
/// one label, the later stands.
fn file_by_name<T: Named>(items: Vec<T>) -> (table: Table<String, T>)
    ensures
        table.contents() == crate::filing::filed(labelled(items@)),
{
    let ghost given = items@;
    let mut table: Table<String, T> = Table::new();
    for item in it: items
        invariant
            it.seq() == given,
            table.contents() == crate::filing::filed(labelled(given.take(it.index() as int))),
    {
        proof {
            let upto = given.take(it.index() as int + 1);
            assert(labelled(upto).drop_last() =~= labelled(given.take(it.index() as int)));
            assert(labelled(upto).last() == (item.label(), item));
        }
        let name = item.name_to_file();
        table.put(name, item);
    }
    proof {
        assert(given.take(given.len() as int) =~= given);
    }
    table
}

/// A callable function of a plugin, as far as the runtime knows it: its
/// name and what it is for.
pub struct KernelFunction {
    name: String,
    description: String,
}

impl KernelFunction {
    /// The name of the function.
    pub closed spec fn name_text(self) -> Seq<char> {
        self.name@
    }

    /// What the function is for.
    pub closed spec fn description_text(self) -> Seq<char> {
        self.description@
    }

    /// A function with the given name and description.
    pub fn new(name: String, description: String) -> (function: Self)
        ensures
            function.name_text() == name@,
            function.description_text() == description@,
    {
        Self { name, description }
    }

    /// The name.
    pub fn name(&self) -> (name: &String)
        ensures
            name@ == self.name_text(),
    {
        &self.name
    }

    /// The description.
    pub fn description(&self) -> (description: &String)
        ensures
            description@ == self.description_text(),
    {
        &self.description
    }
}

impl Named for KernelFunction {
    spec fn label(&self) -> Seq<char> {
        self.name_text()
    }

    fn name_to_file(&self) -> (name: String) {
        self.name.clone()
    }
}

/// The functions of `functions` by name: where a name occurs twice, the
/// later function stands.
pub open spec fn functions_by_name(functions: Seq<KernelFunction>) -> Map<
    Seq<char>,
    KernelFunction,
> {
    crate::filing::filed(
        functions.map_values(|function: KernelFunction| (function.name_text(), function)),
    )
}

/// A named group of functions.
pub struct KernelPlugin {
    name: String,
    description: String,
    functions: Table<String, KernelFunction>,
}

impl KernelPlugin {
    /// The name of the plugin.
    pub closed spec fn name_text(self) -> Seq<char> {
        self.name@
    }

    /// What the plugin is for.
    pub closed spec fn description_text(self) -> Seq<char> {
        self.description@
    }

    /// The functions of the plugin, by name.
    pub closed spec fn functions(self) -> Map<Seq<char>, KernelFunction> {
        self.functions.contents()
    }

    /// A plugin with the given functions, filed by their names.
    pub fn new(name: String, description: String, functions: Vec<KernelFunction>) -> (plugin: Self)
        ensures
            plugin.name_text() == name@,
            plugin.description_text() == description@,
            plugin.functions() == functions_by_name(functions@),
    {
        proof {
            assert(labelled(functions@) =~= functions@.map_values(
                |function: KernelFunction| (function.name_text(), function),
            ));
        }
        let table = file_by_name(functions);
        Self { name, description, functions: table }
    }

    /// The name.
    pub fn name(&self) -> (name: &String)
        ensures
            name@ == self.name_text(),
    {
        &self.name
    }

    /// The description.
    pub fn description(&self) -> (description: &String)
        ensures
            description@ == self.description_text(),
    {
        &self.description
    }

    /// The function named `name`, if the plugin has one.
    pub fn function(&self, name: &String) -> (found: Option<&KernelFunction>)
        ensures
            match found {
                Some(function) => self.functions().contains_key(name@) && *function
                    == self.functions()[name@],
                None => !self.functions().contains_key(name@),
            },
    {
        self.functions.get(name)
    }
}

impl Named for KernelPlugin {
    spec fn label(&self) -> Seq<char> {
        self.name_text()
    }

    fn name_to_file(&self) -> (name: String) {
        self.name.clone()
    }
}

/// The plugins of `plugins` by name: where a name occurs twice, the later
/// plugin stands.
pub open spec fn plugins_by_name(plugins: Seq<KernelPlugin>) -> Map<Seq<char>, KernelPlugin> {
    crate::filing::filed(plugins.map_values(|plugin: KernelPlugin| (plugin.name_text(), plugin)))
}

/// Last registration wins: a name is taken exactly when some plugin of the
/// list has it, and a plugin after which no plugin of the same name comes
/// is the one that stands under its name.
pub proof fn lemma_last_plugin_stands(plugins: Seq<KernelPlugin>)
    ensures
        forall|name: Seq<char>| #[trigger]
            plugins_by_name(plugins).contains_key(name) <==> exists|index: int|
                0 <= index < plugins.len() && (#[trigger] plugins[index]).name_text() == name,
        forall|index: int|
            0 <= index < plugins.len() && (forall|later: int|
                index < later < plugins.len() ==> (#[trigger] plugins[later]).name_text()
                    != plugins[index].name_text()) ==> plugins_by_name(
                plugins,
            )[(#[trigger] plugins[index]).name_text()] == plugins[index],
{
    let named = |plugin: KernelPlugin| (plugin.name_text(), plugin);
    let entries = plugins.map_values(named);
    crate::filing::lemma_last_entry_stands(entries);
    assert forall|name: Seq<char>| #[trigger]
        plugins_by_name(plugins).contains_key(name) <==> exists|index: int|
            0 <= index < plugins.len() && (#[trigger] plugins[index]).name_text() == name by {
        if crate::filing::has_key(entries, name) {
            let index = choose|index: int|
                0 <= index < entries.len() && (#[trigger] entries[index]).0 == name;
            assert(plugins[index].name_text() == name);
        }
        if exists|index: int|
            0 <= index < plugins.len() && (#[trigger] plugins[index]).name_text() == name {
            let index = choose|index: int|
                0 <= index < plugins.len() && (#[trigger] plugins[index]).name_text() == name;
            assert(entries[index].0 == name);
        }
    }
    assert forall|index: int|
        0 <= index < plugins.len() && (forall|later: int|
            index < later < plugins.len() ==> (#[trigger] plugins[later]).name_text()
                != plugins[index].name_text()) implies plugins_by_name(
        plugins,
    )[(#[trigger] plugins[index]).name_text()] == plugins[index] by {
        assert(crate::filing::is_last_of_key(entries, index)) by {
            assert forall|later: int| index < later < entries.len() implies (
            #[trigger] entries[later]).0 != entries[index].0 by {
                assert(plugins[later].name_text() != plugins[index].name_text());
            }
        }
        assert(entries[index] == named(plugins[index]));
    }
}

/// The plugins of a kernel, keyed by name. As a value it is the map from
/// names to plugins.
pub struct KernelPluginCollection {
    plugins: Table<String, KernelPlugin>,
}

impl View for KernelPluginCollection {
    type V = Map<Seq<char>, KernelPlugin>;

    closed spec fn view(&self) -> Map<Seq<char>, KernelPlugin> {
        self.plugins.contents()
    }
}

impl KernelPluginCollection {
    /// The collection of the given plugins, filed by their names; empty
    /// where none are given.
    pub fn new(plugins: Option<Vec<KernelPlugin>>) -> (collection: Self)
        ensures
            collection@ == match plugins {
                Some(list) => plugins_by_name(list@),
                None => Map::<Seq<char>, KernelPlugin>::empty(),
            },
    {
        let table = match plugins {
            Some(list) => {
                proof {
                    assert(labelled(list@) =~= list@.map_values(
                        |plugin: KernelPlugin| (plugin.name_text(), plugin),
                    ));
                }
                file_by_name(list)
            },
            None => Table::new(),
        };
        Self { plugins: table }
    }

    /// The plugin named `name`, if the collection has one.
    pub fn get(&self, name: &String) -> (found: Option<&KernelPlugin>)
        ensures
            match found {
                Some(plugin) => self@.contains_key(name@) && *plugin == self@[name@],
                None => !self@.contains_key(name@),
            },
    {
        self.plugins.get(name)
    }
}

} // verus!
