//! The call graph that an analysis produces.

use vstd::prelude::*;

use crate::order::{compare_number, compare_text, lemma_text_order, number_order, text_order, Ranked};

verus! {

/// Function or method definition discovered in source.
#[derive(Debug, Clone, PartialEq, Eq)]
pub struct Function {
    pub id: String,
    pub name: String,
    pub file: String,
    pub line: usize,
}

/// Syntax category for a resolved call expression.
#[derive(Debug, Clone, Copy, PartialEq, Eq, Structural)]
pub enum CallKind {
    Direct,
    Method,
    Associated,
    Unknown,
}

impl Default for CallKind {
    fn default() -> (k: CallKind)
        ensures
            k == CallKind::Unknown,
    {
        CallKind::Unknown
    }
}

/// Resolved call expression between two discovered functions.
#[derive(Debug, Clone, PartialEq, Eq)]
pub struct Call {
    pub caller: String,
    pub callee: String,
    pub file: String,
    pub line: usize,
    pub kind: CallKind,
}

/// Complete analysis result.
#[derive(Debug, Clone, PartialEq, Eq)]
pub struct Analysis {
    pub functions: Vec<Function>,
    pub calls: Vec<Call>,
}

impl Default for Analysis {
    fn default() -> (a: Analysis)
        ensures
            a.functions@.len() == 0,
            a.calls@.len() == 0,
    {
        Analysis { functions: Vec::new(), calls: Vec::new() }
    }
}

/// What a function record says: its id, name, file and line.
pub struct FunctionModel {
    pub id: Seq<char>,
    pub name: Seq<char>,
    pub file: Seq<char>,
    pub line: int,
}

impl View for Function {
    type V = FunctionModel;

    open spec fn view(&self) -> FunctionModel {
        FunctionModel { id: self.id@, name: self.name@, file: self.file@, line: self.line as int }
    }
}

/// What a call record says: caller and callee ids, where the call is, and
/// its syntax category.
pub struct CallModel {
    pub caller: Seq<char>,
    pub callee: Seq<char>,
    pub file: Seq<char>,
    pub line: int,
    pub kind: CallKind,
}

impl View for Call {
    type V = CallModel;

    open spec fn view(&self) -> CallModel {
        CallModel {
            caller: self.caller@,
            callee: self.callee@,
            file: self.file@,
            line: self.line as int,
            kind: self.kind,
        }
    }
}

impl Function {
    /// A copy of the record.
    pub fn duplicate(&self) -> (r: Function)
        ensures
            r@ == self@,
    {
        Function { id: self.id.clone(), name: self.name.clone(), file: self.file.clone(), line: self.line }
    }
}

impl Call {
    /// A copy of the record.
    pub fn duplicate(&self) -> (r: Call)
        ensures
            r@ == self@,
    {
        Call {
            caller: self.caller.clone(),
            callee: self.callee.clone(),
            file: self.file.clone(),
            line: self.line,
            kind: self.kind,
        }
    }
}

/// The order in which functions are listed: file, name, line, id.
pub open spec fn function_order(a: FunctionModel, b: FunctionModel) -> int {
    if text_order(a.file, b.file) != 0 {
        text_order(a.file, b.file)
    } else if text_order(a.name, b.name) != 0 {
        text_order(a.name, b.name)
    } else if number_order(a.line, b.line) != 0 {
        number_order(a.line, b.line)
    } else {
        text_order(a.id, b.id)
    }
}

/// The order in which calls are listed: caller, callee, file, line.
pub open spec fn call_order(a: CallModel, b: CallModel) -> int {
    if text_order(a.caller, b.caller) != 0 {
        text_order(a.caller, b.caller)
    } else if text_order(a.callee, b.callee) != 0 {
        text_order(a.callee, b.callee)
    } else if text_order(a.file, b.file) != 0 {
        text_order(a.file, b.file)
    } else {
        number_order(a.line, b.line)
    }
}

impl Ranked for Function {
    open spec fn rank_le(self, other: Function) -> bool {
        function_order(self@, other@) <= 0
    }

    proof fn lemma_rank_total(a: Function, b: Function) {
        lemma_text_order(a.file@, b.file@, b.file@);
        lemma_text_order(a.name@, b.name@, b.name@);
        lemma_text_order(a.id@, b.id@, b.id@);
    }

    proof fn lemma_rank_transitive(a: Function, b: Function, c: Function) {
        lemma_text_order(a.file@, b.file@, c.file@);
        lemma_text_order(a.name@, b.name@, c.name@);
        lemma_text_order(a.id@, b.id@, c.id@);
    }

    fn ranks_no_later(&self, other: &Function) -> (r: bool) {
        let o = compare_text(self.file.as_str(), other.file.as_str());
        if o != 0 {
            return o < 0;
        }
        let o = compare_text(self.name.as_str(), other.name.as_str());
        if o != 0 {
            return o < 0;
        }
        let o = compare_number(self.line, other.line);
        if o != 0 {
            return o < 0;
        }
        compare_text(self.id.as_str(), other.id.as_str()) <= 0
    }
}

impl Ranked for Call {
    open spec fn rank_le(self, other: Call) -> bool {
        call_order(self@, other@) <= 0
    }

    proof fn lemma_rank_total(a: Call, b: Call) {
        lemma_text_order(a.caller@, b.caller@, b.caller@);
        lemma_text_order(a.callee@, b.callee@, b.callee@);
        lemma_text_order(a.file@, b.file@, b.file@);
    }

    proof fn lemma_rank_transitive(a: Call, b: Call, c: Call) {
        lemma_text_order(a.caller@, b.caller@, c.caller@);
        lemma_text_order(a.callee@, b.callee@, c.callee@);
        lemma_text_order(a.file@, b.file@, c.file@);
    }

    fn ranks_no_later(&self, other: &Call) -> (r: bool) {
        let o = compare_text(self.caller.as_str(), other.caller.as_str());
        if o != 0 {
            return o < 0;
        }
        let o = compare_text(self.callee.as_str(), other.callee.as_str());
        if o != 0 {
            return o < 0;
        }
        let o = compare_text(self.file.as_str(), other.file.as_str());
        if o != 0 {
            return o < 0;
        }
        compare_number(self.line, other.line) <= 0
    }
}

} // verus!
