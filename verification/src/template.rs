//! The template data model: macro definitions, templates, and the
//! registry that holds every parsed template by name.

use crate::strmap::Duplicable;
use crate::strmap::StrMap;
use vstd::prelude::*;

verus! {

/// A named, reusable template fragment with parameters, declared inside a
/// template.  The collection only indexes definitions by name; their
/// contents are carried through untouched.
#[derive(Debug)]
pub struct MacroDefinition {
    pub name: String,
    pub args: Vec<String>,
    pub body: String,
}

/// The mathematical value of a [`MacroDefinition`].
pub struct MacroDefinitionView {
    pub name: Seq<char>,
    pub args: Seq<Seq<char>>,
    pub body: Seq<char>,
}

impl View for MacroDefinition {
    type V = MacroDefinitionView;

    open spec fn view(&self) -> MacroDefinitionView {
        MacroDefinitionView {
            name: self.name@,
            args: self.args.deep_view(),
            body: self.body@,
        }
    }
}

impl Duplicable for MacroDefinition {
    fn dup(&self) -> (r: Self)
        ensures
            r@ == self@,
    {
        let n = self.args.len();
        let mut args: Vec<String> = Vec::new();
        let mut i: usize = 0;
        while i < n
            invariant
                n == self.args@.len(),
                i <= n,
                args@.len() == i,
                forall|j: int| 0 <= j < i ==> args@[j]@ == self.args@[j]@,
            decreases n - i,
        {
            args.push(self.args[i].clone());
            i = i + 1;
        }
        let r = MacroDefinition { name: self.name.clone(), args, body: self.body.clone() };
        proof {
            assert(r@.args =~= self@.args);
        }
        r
    }
}

/// Maps macro name to macro definition: the macros a template declares
/// directly.
pub type MacroDefinitionMap = StrMap<MacroDefinition>;

/// A parsed template: its own macros, the files it imports macros from
/// (with the local alias each one gets), and the parents it inherits
/// from, both in declaration order.
#[derive(Debug)]
pub struct Template {
    pub name: String,
    pub macros: MacroDefinitionMap,
    pub imported_macro_files: Vec<(String, String)>,
    pub parents: Vec<String>,
}

/// The mathematical value of a [`Template`].
pub struct TemplateView {
    pub name: Seq<char>,
    pub macros: Map<Seq<char>, MacroDefinitionView>,
    pub imported_macro_files: Seq<(Seq<char>, Seq<char>)>,
    pub parents: Seq<Seq<char>>,
}

impl View for Template {
    type V = TemplateView;

    open spec fn view(&self) -> TemplateView {
        TemplateView {
            name: self.name@,
            macros: self.macros@,
            imported_macro_files: self.imported_macro_files.deep_view(),
            parents: self.parents.deep_view(),
        }
    }
}

impl Template {
    pub fn new(name: String) -> (r: Template)
        ensures
            r@.name == name@,
            r@.macros == Map::<Seq<char>, MacroDefinitionView>::empty(),
            r@.imported_macro_files == Seq::<(Seq<char>, Seq<char>)>::empty(),
            r@.parents == Seq::<Seq<char>>::empty(),
    {
        let r = Template {
            name,
            macros: StrMap::new(),
            imported_macro_files: Vec::new(),
            parents: Vec::new(),
        };
        proof {
            assert(r@.imported_macro_files =~= Seq::<(Seq<char>, Seq<char>)>::empty());
            assert(r@.parents =~= Seq::<Seq<char>>::empty());
        }
        r
    }

    /// Declare a macro directly in this template.
    pub fn add_macro(&mut self, def: MacroDefinition)
        ensures
            final(self)@.name == old(self)@.name,
            final(self)@.macros == old(self)@.macros.insert(def@.name, def@),
            final(self)@.imported_macro_files == old(self)@.imported_macro_files,
            final(self)@.parents == old(self)@.parents,
    {
        let key = def.name.clone();
        self.macros.insert(key, def);
    }

    /// Import the macros of `filename` under the local alias `namespace`.
    pub fn add_import(&mut self, filename: String, namespace: String)
        ensures
            final(self)@.name == old(self)@.name,
            final(self)@.macros == old(self)@.macros,
            final(self)@.imported_macro_files == old(self)@.imported_macro_files.push(
                (filename@, namespace@),
            ),
            final(self)@.parents == old(self)@.parents,
    {
        self.imported_macro_files.push((filename, namespace));
        proof {
            assert(self@.imported_macro_files =~= old(self)@.imported_macro_files.push(
                (self.imported_macro_files@.last().0@, self.imported_macro_files@.last().1@),
            ));
        }
    }

    /// Append a parent template to the inheritance chain.
    pub fn add_parent(&mut self, parent: String)
        ensures
            final(self)@.name == old(self)@.name,
            final(self)@.macros == old(self)@.macros,
            final(self)@.imported_macro_files == old(self)@.imported_macro_files,
            final(self)@.parents == old(self)@.parents.push(parent@),
    {
        self.parents.push(parent);
        proof {
            assert(self@.parents =~= old(self)@.parents.push(self.parents@.last()@));
        }
    }
}

/// A registry view is consistent when it is finite and every template is
/// filed under its own name.
pub open spec fn registry_wf(reg: Map<Seq<char>, TemplateView>) -> bool {
    &&& reg.dom().finite()
    &&& forall|k: Seq<char>| reg.contains_key(k) ==> (#[trigger] reg[k]).name == k
}

/// The external lookup service mapping template names to parsed
/// templates; templates are registered once and never mutated.
#[derive(Debug)]
pub struct Registry {
    templates: StrMap<Template>,
}

impl View for Registry {
    type V = Map<Seq<char>, TemplateView>;

    closed spec fn view(&self) -> Map<Seq<char>, TemplateView> {
        self.templates@
    }
}

impl Registry {
    pub open spec fn wf(&self) -> bool {
        registry_wf(self@)
    }

    pub fn new() -> (r: Registry)
        ensures
            r@ == Map::<Seq<char>, TemplateView>::empty(),
            r.wf(),
    {
        let r = Registry { templates: StrMap::new() };
        proof {
            assert(r@.dom() =~= Set::<Seq<char>>::empty());
        }
        r
    }

    /// File `template` under its own name, replacing any previous
    /// template of that name.
    pub fn add_template(&mut self, template: Template)
        requires
            old(self).wf(),
        ensures
            final(self)@ == old(self)@.insert(template@.name, template@),
            final(self).wf(),
    {
        let key = template.name.clone();
        self.templates.insert(key, template);
    }

    pub fn get_template<'a>(&'a self, name: &str) -> (r: Option<&'a Template>)
        ensures
            match r {
                Some(t) => self@.contains_key(name@) && t@ == self@[name@],
                None => !self@.contains_key(name@),
            },
    {
        self.templates.get(name)
    }
}

} // verus!
