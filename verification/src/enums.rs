//! The words of the query language and the kinds of values it handles.
use vstd::prelude::*;
use crate::text::str_eq;

verus! {

/// The statement a query runs.
#[derive(Debug, Clone, Copy, PartialEq, Eq, Structural)]
pub enum Command {
    INSERT,
    SELECT,
    CREATE,
    DELETE,
    EXIT,
}

impl Command {
    /// The command a lower-case keyword names.
    pub open spec fn spec_from_str(s: Seq<char>) -> Option<Command> {
        if s == "select"@ {
            Some(Command::SELECT)
        } else if s == "insert"@ {
            Some(Command::INSERT)
        } else if s == "create"@ {
            Some(Command::CREATE)
        } else if s == "delete"@ {
            Some(Command::DELETE)
        } else if s == "exit"@ {
            Some(Command::EXIT)
        } else {
            None
        }
    }

    pub fn from_str(s: &str) -> (r: Option<Self>)
        ensures
            r == Self::spec_from_str(s@),
    {
        if str_eq(s, "select") {
            Some(Command::SELECT)
        } else if str_eq(s, "insert") {
            Some(Command::INSERT)
        } else if str_eq(s, "create") {
            Some(Command::CREATE)
        } else if str_eq(s, "delete") {
            Some(Command::DELETE)
        } else if str_eq(s, "exit") {
            Some(Command::EXIT)
        } else {
            None
        }
    }

    /// How the command is shown to the user.
    pub open spec fn spec_text(self) -> Seq<char> {
        match self {
            Command::INSERT => "INSERT"@,
            Command::SELECT => "SELECT"@,
            Command::CREATE => "CREATE"@,
            Command::DELETE => "DELETE"@,
            Command::EXIT => "EXIT"@,
        }
    }

    pub fn to_string(&self) -> (r: String)
        ensures
            r@ == self.spec_text(),
    {
        match self {
            Command::INSERT => "INSERT".to_owned(),
            Command::SELECT => "SELECT".to_owned(),
            Command::CREATE => "CREATE".to_owned(),
            Command::DELETE => "DELETE".to_owned(),
            Command::EXIT => "EXIT".to_owned(),
        }
    }
}

/// The column types a table may declare.
#[derive(Debug, Clone, Copy, PartialEq, Eq, Structural)]
pub enum FieldTypesAllowed {
    I8,
    I32,
    String,
}

impl FieldTypesAllowed {
    pub open spec fn spec_from_str(s: Seq<char>) -> Option<FieldTypesAllowed> {
        if s == "i8"@ {
            Some(FieldTypesAllowed::I8)
        } else if s == "i32"@ {
            Some(FieldTypesAllowed::I32)
        } else if s == "string"@ {
            Some(FieldTypesAllowed::String)
        } else {
            None
        }
    }

    pub fn from_str(s: &str) -> (r: Option<Self>)
        ensures
            r == Self::spec_from_str(s@),
    {
        if str_eq(s, "i8") {
            Some(FieldTypesAllowed::I8)
        } else if str_eq(s, "i32") {
            Some(FieldTypesAllowed::I32)
        } else if str_eq(s, "string") {
            Some(FieldTypesAllowed::String)
        } else {
            None
        }
    }

    pub open spec fn spec_text(self) -> Seq<char> {
        match self {
            FieldTypesAllowed::I8 => "i8"@,
            FieldTypesAllowed::I32 => "i32"@,
            FieldTypesAllowed::String => "string"@,
        }
    }

    pub fn to_string(&self) -> (r: String)
        ensures
            r@ == self.spec_text(),
    {
        match self {
            FieldTypesAllowed::I8 => "i8".to_owned(),
            FieldTypesAllowed::I32 => "i32".to_owned(),
            FieldTypesAllowed::String => "string".to_owned(),
        }
    }
}

/// The clause keywords of the query language.
#[derive(Debug, Clone, Copy, PartialEq, Eq, Structural)]
pub enum Filter {
    FROM,
    WHERE,
    AND,
    OR,
}

impl Filter {
    pub open spec fn spec_from_str(s: Seq<char>) -> Option<Filter> {
        if s == "from"@ {
            Some(Filter::FROM)
        } else if s == "where"@ {
            Some(Filter::WHERE)
        } else if s == "and"@ {
            Some(Filter::AND)
        } else if s == "or"@ {
            Some(Filter::OR)
        } else {
            None
        }
    }

    pub fn from_str(s: &str) -> (r: Option<Self>)
        ensures
            r == Self::spec_from_str(s@),
    {
        if str_eq(s, "from") {
            Some(Filter::FROM)
        } else if str_eq(s, "where") {
            Some(Filter::WHERE)
        } else if str_eq(s, "and") {
            Some(Filter::AND)
        } else if str_eq(s, "or") {
            Some(Filter::OR)
        } else {
            None
        }
    }

    pub open spec fn spec_text(self) -> Seq<char> {
        match self {
            Filter::FROM => "FROM"@,
            Filter::WHERE => "WHERE"@,
            Filter::AND => "AND"@,
            Filter::OR => "OR"@,
        }
    }

    pub fn to_string(&self) -> (r: String)
        ensures
            r@ == self.spec_text(),
    {
        match self {
            Filter::FROM => "FROM".to_owned(),
            Filter::WHERE => "WHERE".to_owned(),
            Filter::AND => "AND".to_owned(),
            Filter::OR => "OR".to_owned(),
        }
    }
}

/// Comparison operators of a `where` condition.
#[derive(Debug, Clone, Copy, PartialEq, Eq, Structural)]
pub enum Operand {
    EQ,
    GT,
    GTE,
    LT,
    LTE,
    NQ,
}

impl Default for Operand {
    fn default() -> (r: Self)
        ensures
            r == Operand::EQ,
    {
        Operand::EQ
    }
}

impl Operand {
    pub open spec fn spec_from_str(s: Seq<char>) -> Option<Operand> {
        if s == ">"@ {
            Some(Operand::GT)
        } else if s == ">="@ {
            Some(Operand::GTE)
        } else if s == "="@ || s == "=="@ {
            Some(Operand::EQ)
        } else if s == "<"@ {
            Some(Operand::LT)
        } else if s == "<="@ {
            Some(Operand::LTE)
        } else if s == "!="@ || s == "<>"@ {
            Some(Operand::NQ)
        } else {
            None
        }
    }

    pub fn from_str(s: &str) -> (r: Option<Self>)
        ensures
            r == Self::spec_from_str(s@),
    {
        if str_eq(s, ">") {
            Some(Operand::GT)
        } else if str_eq(s, ">=") {
            Some(Operand::GTE)
        } else if str_eq(s, "=") || str_eq(s, "==") {
            Some(Operand::EQ)
        } else if str_eq(s, "<") {
            Some(Operand::LT)
        } else if str_eq(s, "<=") {
            Some(Operand::LTE)
        } else if str_eq(s, "!=") || str_eq(s, "<>") {
            Some(Operand::NQ)
        } else {
            None
        }
    }

    pub open spec fn spec_text(self) -> Seq<char> {
        match self {
            Operand::EQ => "="@,
            Operand::GT => ">"@,
            Operand::GTE => ">="@,
            Operand::LT => "<"@,
            Operand::LTE => "<="@,
            Operand::NQ => "!="@,
        }
    }

    pub fn to_string(&self) -> (r: String)
        ensures
            r@ == self.spec_text(),
    {
        match self {
            Operand::EQ => "=".to_owned(),
            Operand::GT => ">".to_owned(),
            Operand::GTE => ">=".to_owned(),
            Operand::LT => "<".to_owned(),
            Operand::LTE => "<=".to_owned(),
            Operand::NQ => "!=".to_owned(),
        }
    }
}

/// How a condition joins the conditions before it.
#[derive(Debug, Clone, Copy, PartialEq, Eq, Structural)]
pub enum LogicalConnector {
    And,
    Or,
}

/// A value token: `*`, or any other word.
#[derive(Debug)]
pub enum ValueTypes {
    STAR,
    String(String),
}

/// What a value token holds.
pub enum ValueView {
    Star,
    Text(Seq<char>),
}

impl View for ValueTypes {
    type V = ValueView;

    open spec fn view(&self) -> ValueView {
        match self {
            ValueTypes::STAR => ValueView::Star,
            ValueTypes::String(s) => ValueView::Text(s@),
        }
    }
}

impl ValueTypes {
    /// `*` is the star; the empty word is no value; any other word is itself.
    pub open spec fn spec_from_str(s: Seq<char>) -> Option<ValueView> {
        if s == "*"@ {
            Some(ValueView::Star)
        } else if s.len() == 0 {
            None
        } else {
            Some(ValueView::Text(s))
        }
    }

    pub fn from_str(s: &str) -> (r: Option<Self>)
        ensures
            r matches Some(v) ==> Self::spec_from_str(s@) == Some(v@),
            r is None ==> Self::spec_from_str(s@) is None,
    {
        if str_eq(s, "*") {
            Some(ValueTypes::STAR)
        } else if s.unicode_len() == 0 {
            None
        } else {
            Some(ValueTypes::String(s.to_owned()))
        }
    }

    /// The word, for a value that is not the star.
    pub fn as_str(&self) -> (r: Option<&str>)
        ensures
            match self@ {
                ValueView::Star => r is None,
                ValueView::Text(t) => r matches Some(x) && x@ == t,
            },
    {
        match self {
            ValueTypes::STAR => None,
            ValueTypes::String(s) => Some(s.as_str()),
        }
    }

    pub fn is_star(&self) -> (r: bool)
        ensures
            r == (self@ is Star),
    {
        match self {
            ValueTypes::STAR => true,
            ValueTypes::String(_) => false,
        }
    }

    pub open spec fn spec_text(v: ValueView) -> Seq<char> {
        match v {
            ValueView::Star => "*"@,
            ValueView::Text(t) => t,
        }
    }

    /// How the value is shown to the user.
    pub fn to_string(&self) -> (r: String)
        ensures
            r@ == Self::spec_text(self@),
    {
        match self {
            ValueTypes::STAR => "*".to_owned(),
            ValueTypes::String(s) => s.clone(),
        }
    }
}

/// The kind of one token of a query.
#[derive(Debug)]
pub enum TokenType {
    CMD(Command),
    OP(Operand),
    FILTER(Filter),
    VALUE(ValueTypes),
}

pub enum TokenView {
    Cmd(Command),
    Op(Operand),
    Filter(Filter),
    Value(ValueView),
}

impl View for TokenType {
    type V = TokenView;

    open spec fn view(&self) -> TokenView {
        match self {
            TokenType::CMD(c) => TokenView::Cmd(*c),
            TokenType::OP(o) => TokenView::Op(*o),
            TokenType::FILTER(f) => TokenView::Filter(*f),
            TokenType::VALUE(v) => TokenView::Value(v@),
        }
    }
}

impl TokenType {
    pub open spec fn spec_text(t: TokenView) -> Seq<char> {
        match t {
            TokenView::Cmd(c) => c.spec_text(),
            TokenView::Op(o) => o.spec_text(),
            TokenView::Filter(f) => f.spec_text(),
            TokenView::Value(v) => ValueTypes::spec_text(v),
        }
    }

    pub fn to_string(&self) -> (r: String)
        ensures
            r@ == Self::spec_text(self@),
    {
        match self {
            TokenType::CMD(c) => c.to_string(),
            TokenType::OP(o) => o.to_string(),
            TokenType::FILTER(f) => f.to_string(),
            TokenType::VALUE(v) => v.to_string(),
        }
    }
}

} // verus!
