use vstd::prelude::*;

verus! {

/// Whether a grammar symbol is a terminal or a non-terminal.
#[derive(Debug, Clone, Copy, PartialEq, Eq, Structural)]
pub enum SymbolKind {
    Terminal,
    NonTerminal,
}

impl SymbolKind {
    /// `true` for a terminal symbol, `false` for a non-terminal one.
    pub fn as_bool(&self) -> (r: bool)
        ensures
            r == (*self is Terminal),
    {
        match self {
            SymbolKind::Terminal => true,
            SymbolKind::NonTerminal => false,
        }
    }
}

impl From<bool> for SymbolKind {
    fn from(b: bool) -> (r: SymbolKind) {
        if b {
            SymbolKind::Terminal
        } else {
            SymbolKind::NonTerminal
        }
    }
}

impl vstd::std_specs::convert::FromSpecImpl<bool> for SymbolKind {
    open spec fn obeys_from_spec() -> bool {
        true
    }

    open spec fn from_spec(b: bool) -> SymbolKind {
        if b {
            SymbolKind::Terminal
        } else {
            SymbolKind::NonTerminal
        }
    }
}

impl From<SymbolKind> for bool {
    fn from(s: SymbolKind) -> (r: bool) {
        s.as_bool()
    }
}

impl vstd::std_specs::convert::FromSpecImpl<SymbolKind> for bool {
    open spec fn obeys_from_spec() -> bool {
        true
    }

    open spec fn from_spec(s: SymbolKind) -> bool {
        s is Terminal
    }
}

impl<'a> From<&'a SymbolKind> for bool {
    fn from(s: &'a SymbolKind) -> (r: bool) {
        s.as_bool()
    }
}

impl<'a> vstd::std_specs::convert::FromSpecImpl<&'a SymbolKind> for bool {
    open spec fn obeys_from_spec() -> bool {
        true
    }

    open spec fn from_spec(s: &'a SymbolKind) -> bool {
        *s is Terminal
    }
}

} // verus!
