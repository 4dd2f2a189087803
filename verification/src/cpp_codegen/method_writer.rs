//! The state of writing one C++ method body: its code, its locals, its
//! includes and the stack of values not yet used.
use vstd::prelude::*;
use crate::cpp_codegen::{IncludeBuilder, spec_add_include};
use crate::text::{push_str, push_char, push_decimal, spec_decimal, to_owned_string, str_eq, lemma_decimal_injective};
use crate::vartype::{VariableType, SpecVarType, spec_c_type};

verus! {

/// The kind of a local variable, which decides the letter its name ends in.
#[derive(Debug, Clone, Copy, PartialEq, Eq, Structural)]
pub enum LocalKind {
    ObjectRef,
    Float,
    Double,
    Int,
    Long,
}

/// The letter a local of a kind ends in.
pub open spec fn kind_letter(kind: LocalKind) -> char {
    match kind {
        LocalKind::ObjectRef => 'a',
        LocalKind::Float => 'f',
        LocalKind::Double => 'd',
        LocalKind::Int => 'i',
        LocalKind::Long => 'l',
    }
}

/// The name of local `id` of a kind: `l`, the number, the kind's letter.
pub open spec fn spec_local_name(id: u8, kind: LocalKind) -> Seq<char> {
    seq!['l'] + spec_decimal(id as nat) + seq![kind_letter(kind)]
}

/// `n` tab characters.
pub open spec fn tabs(n: nat) -> Seq<char> {
    Seq::new(n, |i: int| '\t')
}

/// The views of a list of optional types.
pub open spec fn opt_type_views(v: Seq<Option<VariableType>>) -> Seq<Option<SpecVarType>> {
    v.map_values(|t: Option<VariableType>| match t {
        Some(x) => Some(x@),
        None => None,
    })
}

/// The views of the value stack.
pub open spec fn stack_views(v: Seq<(VariableType, String)>) -> Seq<(SpecVarType, Seq<char>)> {
    v.map_values(|e: (VariableType, String)| (e.0@, e.1@))
}

/// The declaration line of a local: a tab, its C++ type, its name.
pub open spec fn local_decl_line(ctype: Seq<char>, name: Seq<char>) -> Seq<char> {
    seq!['\t'] + ctype + seq![' '] + name + seq![';', '\n']
}

/// The writer of one C++ method body.
pub struct MethodWriter {
    pub includes: IncludeBuilder,
    pub code: String,
    pub sig: String,
    pub ident_level: usize,
    pub local_decl: String,
    pub vstack: Vec<(VariableType, String)>,
    pub locals: Vec<String>,
    pub local_types: Vec<Option<VariableType>>,
    pub im_id: usize,
}

impl MethodWriter {
    /// The declared locals' names.
    pub open spec fn local_names(&self) -> Seq<Seq<char>> {
        self.locals.deep_view()
    }

    /// The known types of the locals, by number.
    pub open spec fn types(&self) -> Seq<Option<SpecVarType>> {
        opt_type_views(self.local_types@)
    }

    /// The type local `id` is known to have, if any.
    pub fn get_local_type(&self, id: u8) -> (r: Option<VariableType>)
        ensures
            match r {
                Some(t) => (id as int) < self.types().len() && self.types()[id as int] == Some(t@),
                None => (id as int) >= self.types().len() || self.types()[id as int] is None,
            },
    {
        if (id as usize) < self.local_types.len() {
            match &self.local_types[id as usize] {
                Some(t) => Some(t.duplicate()),
                None => None,
            }
        } else {
            None
        }
    }

    /// Records the type of local `id`, growing the table as needed.
    fn set_local_type(&mut self, id: u8, vtype: VariableType)
        ensures
            final(self).types().len() == if (id as int) < old(self).types().len() { old(self).types().len() as int } else { id as int + 1 },
            final(self).types()[id as int] == Some(vtype@),
            forall|j: int| 0 <= j < final(self).types().len() && j != id ==>
                final(self).types()[j] == (if j < old(self).types().len() { old(self).types()[j] } else { None::<SpecVarType> }),
            final(self).code == old(self).code,
            final(self).local_decl == old(self).local_decl,
            final(self).locals == old(self).locals,
            final(self).vstack == old(self).vstack,
            final(self).sig == old(self).sig,
            final(self).ident_level == old(self).ident_level,
            final(self).im_id == old(self).im_id,
            final(self).includes == old(self).includes,
    {
        let ghost t0 = self.types();
        while self.local_types.len() <= id as usize
            invariant
                self.local_types@.len() >= t0.len(),
                self.local_types@.len() <= if (id as int) < t0.len() { t0.len() as int } else { id as int + 1 },
                forall|j: int| 0 <= j < self.local_types@.len() ==>
                    opt_type_views(self.local_types@)[j] == (if j < t0.len() { t0[j] } else { None::<SpecVarType> }),
                t0 == opt_type_views(old(self).local_types@),
                self.code == old(self).code,
                self.local_decl == old(self).local_decl,
                self.locals == old(self).locals,
                self.vstack == old(self).vstack,
                self.sig == old(self).sig,
                self.ident_level == old(self).ident_level,
                self.im_id == old(self).im_id,
                self.includes == old(self).includes,
            decreases id as int + 1 - self.local_types@.len(),
        {
            let ghost before = self.local_types@;
            self.local_types.push(None);
            assert(opt_type_views(self.local_types@) =~= opt_type_views(before).push(None));
        }
        let ghost before = self.local_types@;
        self.local_types.set(id as usize, Some(vtype));
        assert(opt_type_views(self.local_types@) =~= opt_type_views(before).update(id as int, Some(vtype@)));
    }

    /// The name of local `id` of a kind, with the type it is known to have:
    /// for an object reference the recorded type, for the others the
    /// kind's type.
    pub fn get_local(&self, id: u8, kind: LocalKind) -> (r: (String, Option<VariableType>))
        ensures
            r.0@ == spec_local_name(id, kind),
            match kind {
                LocalKind::ObjectRef => match r.1 {
                    Some(t) => (id as int) < self.types().len() && self.types()[id as int] == Some(t@),
                    None => (id as int) >= self.types().len() || self.types()[id as int] is None,
                },
                LocalKind::Float => r.1 matches Some(t) && t@ == SpecVarType::Float,
                LocalKind::Double => r.1 matches Some(t) && t@ == SpecVarType::Double,
                LocalKind::Int => r.1 matches Some(t) && t@ == SpecVarType::Int,
                LocalKind::Long => r.1 matches Some(t) && t@ == SpecVarType::Long,
            },
    {
        let mut name = String::new();
        push_char(&mut name, 'l');
        push_decimal(&mut name, id as usize);
        let (letter, vtype) = match kind {
            LocalKind::ObjectRef => ('a', self.get_local_type(id)),
            LocalKind::Float => ('f', Some(VariableType::Float)),
            LocalKind::Double => ('d', Some(VariableType::Double)),
            LocalKind::Int => ('i', Some(VariableType::Int)),
            LocalKind::Long => ('l', Some(VariableType::Long)),
        };
        push_char(&mut name, letter);
        assert(name@ =~= spec_local_name(id, kind));
        (name, vtype)
    }

    /// Whether a local of this name is declared.
    fn has_local(&self, name: &str) -> (r: bool)
        ensures
            r == self.local_names().contains(name@),
    {
        let ghost names = self.locals.deep_view();
        let mut i: usize = 0;
        while i < self.locals.len()
            invariant
                names == self.locals.deep_view(),
                names.len() == self.locals@.len(),
                i <= names.len(),
                forall|j: int| 0 <= j < i ==> names[j] != name@,
            decreases names.len() - i,
        {
            assert(names[i as int] == self.locals@[i as int].deep_view());
            if str_eq(self.locals[i].as_str(), name) {
                assert(names.contains(name@));
                return true;
            }
            i = i + 1;
        }
        false
    }

    /// The local `id` of a kind, declared with type `vtype` (and that type
    /// recorded) the first time it is met.
    pub fn ensure_local_exists(&mut self, id: u8, kind: LocalKind, vtype: VariableType) -> (r: (String, Option<VariableType>))
        ensures
            r.0@ == spec_local_name(id, kind),
            old(self).local_names().contains(spec_local_name(id, kind)) ==> *final(self) == *old(self),
            !old(self).local_names().contains(spec_local_name(id, kind)) ==> {
                &&& final(self).local_decl@ == old(self).local_decl@ + local_decl_line(spec_c_type(vtype@), spec_local_name(id, kind))
                &&& final(self).local_names() == old(self).local_names().push(spec_local_name(id, kind))
                &&& final(self).types()[id as int] == Some(vtype@)
                &&& final(self).code == old(self).code
                &&& final(self).vstack == old(self).vstack
            },
    {
        let local = self.get_local(id, kind);
        if !self.has_local(local.0.as_str()) {
            let ctype = vtype.c_type();
            push_char(&mut self.local_decl, '\t');
            push_str(&mut self.local_decl, ctype.as_str());
            push_char(&mut self.local_decl, ' ');
            push_str(&mut self.local_decl, local.0.as_str());
            push_char(&mut self.local_decl, ';');
            push_char(&mut self.local_decl, '\n');
            let ghost decl = self.local_decl@;
            let ghost names = self.locals.deep_view();
            self.set_local_type(id, vtype);
            self.locals.push(to_owned_string(local.0.as_str()));
            assert(self.locals.deep_view() =~= names.push(local.0@));
            assert(self.local_decl@ =~= old(self).local_decl@ + local_decl_line(spec_c_type(vtype@), spec_local_name(id, kind)));
        }
        local
    }

    /// The local `id` of a kind, declared with the C++ type `ctype` the
    /// first time it is met (its type is not recorded).
    pub fn esnsure_local_exists(&mut self, id: u8, kind: LocalKind, ctype: &str) -> (r: String)
        ensures
            r@ == spec_local_name(id, kind),
            old(self).local_names().contains(spec_local_name(id, kind)) ==> *final(self) == *old(self),
            !old(self).local_names().contains(spec_local_name(id, kind)) ==> {
                &&& final(self).local_decl@ == old(self).local_decl@ + local_decl_line(ctype@, spec_local_name(id, kind))
                &&& final(self).local_names() == old(self).local_names().push(spec_local_name(id, kind))
                &&& *final(self) == (MethodWriter { local_decl: final(self).local_decl, locals: final(self).locals, ..*old(self) })
            },
    {
        let local = self.get_local(id, kind).0;
        if !self.has_local(local.as_str()) {
            let ghost names = self.locals.deep_view();
            push_char(&mut self.local_decl, '\t');
            push_str(&mut self.local_decl, ctype);
            push_char(&mut self.local_decl, ' ');
            push_str(&mut self.local_decl, local.as_str());
            push_char(&mut self.local_decl, ';');
            push_char(&mut self.local_decl, '\n');
            self.locals.push(to_owned_string(local.as_str()));
            assert(self.locals.deep_view() =~= names.push(local@));
            assert(self.local_decl@ =~= old(self).local_decl@ + local_decl_line(ctype@, spec_local_name(id, kind)));
        }
        local
    }

    /// A writer for a method whose arguments have the types `args`.
    pub fn new(args: &Vec<VariableType>) -> (r: MethodWriter)
        ensures
            r.types() == args@.map_values(|t: VariableType| Some(t@)),
            r.code@.len() == 0,
            r.sig@.len() == 0,
            r.ident_level == 1,
            r.local_decl@.len() == 0,
            r.vstack@.len() == 0,
            r.locals@.len() == 0,
            r.im_id == 0,
            r.includes.wf(),
            r.includes.known() == seq![Seq::<char>::empty()],
            r.includes.text().len() == 0,
    {
        let mut local_types: Vec<Option<VariableType>> = Vec::new();
        let mut i: usize = 0;
        while i < args.len()
            invariant
                i <= args@.len(),
                opt_type_views(local_types@) =~= args@.take(i as int).map_values(|t: VariableType| Some(t@)),
            decreases args@.len() - i,
        {
            let ghost before = local_types@;
            local_types.push(Some(args[i].duplicate()));
            assert(opt_type_views(local_types@) =~= opt_type_views(before).push(Some(args@[i as int]@)));
            assert(args@.take(i + 1).map_values(|t: VariableType| Some(t@))
                =~= args@.take(i as int).map_values(|t: VariableType| Some(t@)).push(Some(args@[i as int]@)));
            i = i + 1;
        }
        assert(args@.take(args@.len() as int) =~= args@);
        proof {
            reveal_strlit("");
            assert(""@ =~= Seq::<char>::empty());
        }
        MethodWriter {
            vstack: Vec::new(),
            code: String::new(),
            sig: String::new(),
            includes: IncludeBuilder::new(""),
            local_types,
            ident_level: 1,
            local_decl: String::new(),
            locals: Vec::new(),
            im_id: 0,
        }
    }

    /// Writes the indentation of the current scope.
    fn write_ident(&mut self)
        ensures
            final(self).code@ == old(self).code@ + tabs(old(self).ident_level as nat),
            *final(self) == (MethodWriter { code: final(self).code, ..*old(self) }),
    {
        let mut i: usize = 0;
        while i < self.ident_level
            invariant
                i <= self.ident_level,
                self.code@ == old(self).code@ + tabs(i as nat),
                *self == (MethodWriter { code: self.code, ..*old(self) }),
            decreases self.ident_level - i,
        {
            push_char(&mut self.code, '\t');
            assert(tabs((i + 1) as nat) =~= tabs(i as nat).push('\t'));
            i = i + 1;
        }
    }

    /// Starts basic block `index`: the label `bb<index>:`.
    pub fn begin_bb(&mut self, index: usize)
        ensures
            final(self).code@ == old(self).code@ + tabs(old(self).ident_level as nat) + seq!['b', 'b'] + spec_decimal(index as nat) + seq![':', '\n'],
            *final(self) == (MethodWriter { code: final(self).code, ..*old(self) }),
    {
        self.write_ident();
        push_char(&mut self.code, 'b');
        push_char(&mut self.code, 'b');
        push_decimal(&mut self.code, index);
        push_char(&mut self.code, ':');
        push_char(&mut self.code, '\n');
        assert(self.code@ =~= old(self).code@ + tabs(old(self).ident_level as nat) + seq!['b', 'b'] + spec_decimal(index as nat) + seq![':', '\n']);
    }

    /// Opens a scope: `{` at the current indentation, one level deeper after.
    pub fn begin_scope(&mut self)
        requires
            old(self).ident_level < usize::MAX,
        ensures
            final(self).code@ == old(self).code@ + tabs(old(self).ident_level as nat) + seq!['{', '\n'],
            final(self).ident_level == old(self).ident_level + 1,
            *final(self) == (MethodWriter { code: final(self).code, ident_level: final(self).ident_level, ..*old(self) }),
    {
        self.write_ident();
        self.ident_level = self.ident_level + 1;
        push_char(&mut self.code, '{');
        push_char(&mut self.code, '\n');
        assert(self.code@ =~= old(self).code@ + tabs(old(self).ident_level as nat) + seq!['{', '\n']);
    }

    /// Closes a scope: one level less deep, then `}`.
    pub fn end_scope(&mut self)
        requires
            old(self).ident_level > 0,
        ensures
            final(self).ident_level == old(self).ident_level - 1,
            final(self).code@ == old(self).code@ + tabs((old(self).ident_level - 1) as nat) + seq!['}', '\n'],
            *final(self) == (MethodWriter { code: final(self).code, ident_level: final(self).ident_level, ..*old(self) }),
    {
        self.ident_level = self.ident_level - 1;
        self.write_ident();
        push_char(&mut self.code, '}');
        push_char(&mut self.code, '\n');
        assert(self.code@ =~= old(self).code@ + tabs((old(self).ident_level - 1) as nat) + seq!['}', '\n']);
    }

    /// Includes the header of `name` in the method's file.
    pub fn add_include(&mut self, name: &str)
        requires
            old(self).includes.wf(),
        ensures
            final(self).includes.wf(),
            (final(self).includes.known(), final(self).includes.text())
                == spec_add_include(old(self).includes.known(), old(self).includes.text(), name@),
            *final(self) == (MethodWriter { includes: final(self).includes, ..*old(self) }),
    {
        self.includes.add_include(name);
    }

    /// Sets the method's signature.
    pub fn set_sig(&mut self, sig: &str)
        ensures
            final(self).sig@ == sig@,
            *final(self) == (MethodWriter { sig: final(self).sig, ..*old(self) }),
    {
        self.sig = to_owned_string(sig);
    }

    /// Writes a line of code at the current indentation.
    pub fn write_raw(&mut self, code: &str)
        ensures
            final(self).code@ == old(self).code@ + tabs(old(self).ident_level as nat) + code@ + seq!['\n'],
            *final(self) == (MethodWriter { code: final(self).code, ..*old(self) }),
    {
        self.write_ident();
        push_str(&mut self.code, code);
        push_char(&mut self.code, '\n');
    }

    /// Pushes a value, named `vvar`, of type `vtype` on the value stack.
    pub fn vstack_push(&mut self, vvar: &str, vtype: VariableType)
        ensures
            stack_views(final(self).vstack@) == stack_views(old(self).vstack@).push((vtype@, vvar@)),
            *final(self) == (MethodWriter { vstack: final(self).vstack, ..*old(self) }),
    {
        self.vstack.push((vtype, to_owned_string(vvar)));
        assert(stack_views(self.vstack@) =~= stack_views(old(self).vstack@).push((vtype@, vvar@)));
    }

    /// A fresh name for an intermediate value: `i` and a counter.
    pub fn get_intermidiate(&mut self) -> (r: String)
        requires
            old(self).im_id < usize::MAX,
        ensures
            r@ == seq!['i'] + spec_decimal(old(self).im_id as nat),
            final(self).im_id == old(self).im_id + 1,
            *final(self) == (MethodWriter { im_id: final(self).im_id, ..*old(self) }),
    {
        let mut im = String::new();
        push_char(&mut im, 'i');
        push_decimal(&mut im, self.im_id);
        self.im_id = self.im_id + 1;
        im
    }

    /// Declares a local by the line `decl`, the first time it is met.
    pub fn push_locals(&mut self, local: &str, decl: &str)
        ensures
            old(self).local_names().contains(local@) ==> *final(self) == *old(self),
            !old(self).local_names().contains(local@) ==> {
                &&& final(self).local_names() == old(self).local_names().push(local@)
                &&& final(self).local_decl@ == old(self).local_decl@ + decl@
                &&& *final(self) == (MethodWriter { locals: final(self).locals, local_decl: final(self).local_decl, ..*old(self) })
            },
    {
        if !self.has_local(local) {
            let ghost names = self.locals.deep_view();
            self.locals.push(to_owned_string(local));
            assert(self.locals.deep_view() =~= names.push(local@));
            push_str(&mut self.local_decl, decl);
        }
    }

    /// Pops the top value of the value stack.
    pub fn vstack_pop(&mut self) -> (r: Option<(VariableType, String)>)
        ensures
            old(self).vstack@.len() == 0 ==> r is None && stack_views(final(self).vstack@) == stack_views(old(self).vstack@),
            old(self).vstack@.len() > 0 ==> (r matches Some(e) && (e.0@, e.1@) == stack_views(old(self).vstack@).last()
                && stack_views(final(self).vstack@) == stack_views(old(self).vstack@).drop_last()),
            *final(self) == (MethodWriter { vstack: final(self).vstack, ..*old(self) }),
    {
        let r = self.vstack.pop();
        proof {
            if old(self).vstack@.len() > 0 {
                assert(stack_views(self.vstack@) =~= stack_views(old(self).vstack@).drop_last());
            }
        }
        r
    }

    /// The whole method: its includes, its signature, then a block holding
    /// the local declarations and the code.
    pub fn final_code(&self) -> (r: String)
        ensures
            r@ == self.includes.text() + self.sig@ + seq!['{', '\n'] + self.local_decl@ + self.code@ + seq!['}'],
    {
        let mut out = to_owned_string(self.includes.get_code());
        push_str(&mut out, self.sig.as_str());
        push_char(&mut out, '{');
        push_char(&mut out, '\n');
        push_str(&mut out, self.local_decl.as_str());
        push_str(&mut out, self.code.as_str());
        push_char(&mut out, '}');
        out
    }
}

/// The intermediate names a writer hands out are all different: the name
/// given at counter value `a` differs from the one given at `b`.
pub proof fn law_intermediate_names_distinct(a: nat, b: nat)
    requires
        a != b,
    ensures
        seq!['i'] + spec_decimal(a) != seq!['i'] + spec_decimal(b),
{
    if seq!['i'] + spec_decimal(a) == seq!['i'] + spec_decimal(b) {
        assert((seq!['i'] + spec_decimal(a)).skip(1) =~= spec_decimal(a));
        assert((seq!['i'] + spec_decimal(b)).skip(1) =~= spec_decimal(b));
        lemma_decimal_injective(a, b);
    }
}

} // verus!
