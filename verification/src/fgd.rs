//! A simplified model of entity definition files, and their text form.

pub mod to_fgd_literal;

use crate::fgd::to_fgd_literal::{
    decimal, decimal_digits, decimal_text, digits_text, quoted, ToFgdLiteral,
};
use vstd::string::StrSliceExecFns;
use vstd::prelude::*;
use vstd::string::StringExecFns;

verus! {

/// One step of indentation: four spaces.
pub open spec fn tab() -> Seq<char> {
    seq![' ', ' ', ' ', ' ']
}

/// What kind of thing a class describes.
#[derive(Clone, Copy, PartialEq, Eq, Debug, Structural)]
pub enum FgdClassType {
    Base,
    Point,
    Solid,
}

impl FgdClassType {
    /// The keyword of the class type.
    pub open spec fn keyword(self) -> Seq<char> {
        match self {
            FgdClassType::Base => "@BaseClass"@,
            FgdClassType::Point => "@PointClass"@,
            FgdClassType::Solid => "@SolidClass"@,
        }
    }

    /// The keyword that opens a class of this type.
    pub fn serialize(&self) -> (text: &'static str)
        ensures
            text@ == self.keyword(),
    {
        match self {
            FgdClassType::Base => "@BaseClass",
            FgdClassType::Point => "@PointClass",
            FgdClassType::Solid => "@SolidClass",
        }
    }
}

/// The common parts of a property of an entity: its name, the name shown
/// to the user, the value it starts with, and a description.
#[derive(Debug)]
pub struct EntityPropertyData<T: ToFgdLiteral + Default> {
    pub name: String,
    pub display_name: String,
    pub default: T,
    pub description: String,
}

impl<T: ToFgdLiteral + Default> EntityPropertyData<T> {
    /// A property of the given name, with everything else left at its default.
    pub fn named(name: String) -> (data: Self)
        ensures
            data.name@ == name@,
            data.display_name@ == Seq::<char>::empty(),
            data.description@ == Seq::<char>::empty(),
            call_ensures(T::default, (), data.default),
    {
        EntityPropertyData {
            name,
            display_name: String::new(),
            default: T::default(),
            description: String::new(),
        }
    }

    /// The text form of a property of the kind `kind_name`.
    pub open spec fn serialized(&self, kind_name: Seq<char>) -> Seq<char> {
        self.name@ + "("@ + kind_name + ") : "@ + quoted(self.display_name@) + " : "@
            + self.default.fgd_literal() + " : "@ + quoted(self.description@)
    }

    /// Writes the property as `name(type) : "display name" : default : "description"`.
    pub fn serialize(&self, kind_name: &str) -> (text: String)
        ensures
            text@ == self.serialized(kind_name@),
    {
        let mut text = self.name.clone();
        text.append("(");
        text.append(kind_name);
        text.append(") : ");
        text.append(self.display_name.to_fgd_literal().as_str());
        text.append(" : ");
        text.append(self.default.to_fgd_literal().as_str());
        text.append(" : ");
        text.append(self.description.to_fgd_literal().as_str());
        text
    }
}

/// One of the values a property may take.
#[derive(Debug)]
pub struct Choice {
    pub index: i32,
    pub name: String,
}

impl Choice {
    /// The text form of the choice.
    pub open spec fn serialized(&self) -> Seq<char> {
        decimal(self.index as int) + " : "@ + quoted(self.name@)
    }

    /// Writes the choice as `index : "name"`.
    pub fn serialize(&self) -> (text: String)
        ensures
            text@ == self.serialized(),
    {
        let mut text = decimal_text(self.index);
        text.append(" : ");
        text.append(self.name.to_fgd_literal().as_str());
        text
    }
}

/// One bit of a set of flags.
#[derive(Debug)]
pub struct Flag {
    pub flag: i32,
    pub name: String,
    pub default: bool,
}

impl Flag {
    /// The text form of the flag.
    pub open spec fn serialized(&self) -> Seq<char> {
        decimal(self.flag as int) + " : "@ + quoted(self.name@) + " : "@
            + self.default.fgd_literal()
    }

    /// Writes the flag as `bit : "name" : default`.
    pub fn serialize(&self) -> (text: String)
        ensures
            text@ == self.serialized(),
    {
        let mut text = decimal_text(self.flag);
        text.append(" : ");
        text.append(self.name.to_fgd_literal().as_str());
        text.append(" : ");
        text.append(self.default.to_fgd_literal().as_str());
        text
    }
}

/// The lines of the first `n` flags, each indented and ended.
pub open spec fn flag_lines(flags: Seq<Flag>, n: nat) -> Seq<char>
    decreases n,
{
    if n == 0 {
        Seq::empty()
    } else {
        flag_lines(flags, (n - 1) as nat) + tab() + flags[n - 1].serialized() + "\n"@
    }
}

/// The lines of the first `n` choices, each indented and ended.
pub open spec fn choice_lines(choices: Seq<Choice>, n: nat) -> Seq<char>
    decreases n,
{
    if n == 0 {
        Seq::empty()
    } else {
        choice_lines(choices, (n - 1) as nat) + tab() + choices[n - 1].serialized() + "\n"@
    }
}

/// A property that is a set of flags.
#[derive(Debug)]
pub struct FlagsData {
    pub name: String,
    pub flags: Vec<Flag>,
}

impl FlagsData {
    /// The text form of the set of flags.
    pub open spec fn serialized(&self) -> Seq<char> {
        self.name@ + "(flags) =\n[\n"@ + flag_lines(self.flags@, self.flags@.len()) + "]"@
    }

    /// Writes the flags as a header and one line for each flag, in square brackets.
    pub fn serialize(&self) -> (text: String)
        ensures
            text@ == self.serialized(),
    {
        let mut text = self.name.clone();
        text.append("(flags) =\n[\n");
        let ghost head = text@;
        let mut i: usize = 0;
        assert(head + Seq::<char>::empty() =~= head);
        while i < self.flags.len()
            invariant
                i <= self.flags.len(),
                text@ == head + flag_lines(self.flags@, i as nat),
            decreases self.flags.len() - i,
        {
            let ghost before = flag_lines(self.flags@, i as nat);
            proof {
                reveal_strlit("    ");
                assert("    "@ =~= tab());
            }
            text.append("    ");
            text.append(self.flags[i].serialize().as_str());
            text.append("\n");
            assert(text@ =~= head + (before + tab() + self.flags@[i as int].serialized() + "\n"@));
            i += 1;
        }
        text.append("]");
        text
    }
}

/// A number with a fraction, held as the text that stands for it.
#[derive(Debug)]
pub struct FloatLiteral {
    pub text: String,
}

impl Default for FloatLiteral {
    fn default() -> (r: Self)
        ensures
            r.text@ == "0"@,
    {
        FloatLiteral { text: String::from_str("0") }
    }
}

impl ToFgdLiteral for FloatLiteral {
    open spec fn fgd_literal(&self) -> Seq<char> {
        self.text@
    }

    fn to_fgd_literal(&self) -> (text: String) {
        self.text.clone()
    }
}

/// A property of an entity.
#[derive(Debug)]
pub enum EntityProperty {
    String(EntityPropertyData<String>),
    Integer(EntityPropertyData<i32>),
    Boolean(EntityPropertyData<bool>),
    Float(EntityPropertyData<FloatLiteral>),
    Choices(EntityPropertyData<i32>, Vec<Choice>),
    Flags(FlagsData),
}

impl EntityProperty {
    /// The name of the property.
    pub open spec fn name_view(&self) -> Seq<char> {
        match self {
            EntityProperty::String(data) => data.name@,
            EntityProperty::Integer(data) => data.name@,
            EntityProperty::Boolean(data) => data.name@,
            EntityProperty::Float(data) => data.name@,
            EntityProperty::Choices(data, _) => data.name@,
            EntityProperty::Flags(data) => data.name@,
        }
    }

    /// The name of the property.
    pub fn name(&self) -> (name: &String)
        ensures
            name@ == self.name_view(),
    {
        match self {
            EntityProperty::String(data) => &data.name,
            EntityProperty::Integer(data) => &data.name,
            EntityProperty::Boolean(data) => &data.name,
            EntityProperty::Float(data) => &data.name,
            EntityProperty::Choices(data, _) => &data.name,
            EntityProperty::Flags(data) => &data.name,
        }
    }

    /// The name of the kind of property.
    pub open spec fn kind(&self) -> Seq<char> {
        match self {
            EntityProperty::String(_) => "String"@,
            EntityProperty::Integer(_) => "Integer"@,
            EntityProperty::Boolean(_) => "Boolean"@,
            EntityProperty::Float(_) => "Float"@,
            EntityProperty::Choices(_, _) => "Choices"@,
            EntityProperty::Flags(_) => "Flags"@,
        }
    }

    /// The name of the kind of property, as shown to the user.
    pub fn kind_name(&self) -> (name: &'static str)
        ensures
            name@ == self.kind(),
    {
        match self {
            EntityProperty::String(_) => "String",
            EntityProperty::Integer(_) => "Integer",
            EntityProperty::Boolean(_) => "Boolean",
            EntityProperty::Float(_) => "Float",
            EntityProperty::Choices(_, _) => "Choices",
            EntityProperty::Flags(_) => "Flags",
        }
    }

    /// The text form of the property.
    pub open spec fn serialized(&self) -> Seq<char> {
        match self {
            EntityProperty::String(data) => data.serialized("string"@),
            EntityProperty::Integer(data) => data.serialized("integer"@),
            EntityProperty::Boolean(data) => data.serialized("boolean"@),
            EntityProperty::Float(data) => data.serialized("float"@),
            EntityProperty::Choices(data, choices) => data.serialized("choices"@) + " =\n[\n"@
                + choice_lines(choices@, choices@.len()) + "]"@,
            EntityProperty::Flags(data) => data.serialized(),
        }
    }

    /// Writes the property in the text form of its kind.
    pub fn serialize(&self) -> (text: String)
        ensures
            text@ == self.serialized(),
    {
        match self {
            EntityProperty::String(data) => data.serialize("string"),
            EntityProperty::Integer(data) => data.serialize("integer"),
            EntityProperty::Boolean(data) => data.serialize("boolean"),
            EntityProperty::Float(data) => data.serialize("float"),
            EntityProperty::Choices(data, choices) => {
                let mut text = data.serialize("choices");
                text.append(" =\n[\n");
                let ghost head = text@;
                let mut i: usize = 0;
                assert(head + Seq::<char>::empty() =~= head);
                while i < choices.len()
                    invariant
                        i <= choices.len(),
                        text@ == head + choice_lines(choices@, i as nat),
                    decreases choices.len() - i,
                {
                    let ghost before = choice_lines(choices@, i as nat);
                    proof {
                        reveal_strlit("    ");
                        assert("    "@ =~= tab());
                    }
                    text.append("    ");
                    text.append(choices[i].serialize().as_str());
                    text.append("\n");
                    assert(text@ =~= head + (before + tab() + choices@[i as int].serialized()
                        + "\n"@));
                    i += 1;
                }
                text.append("]");
                text
            },
            EntityProperty::Flags(data) => data.serialize(),
        }
    }
}

impl EntityProperty {
    /// The property with another name and everything else as it is.
    pub open spec fn renamed(self, new_name: String) -> EntityProperty {
        match self {
            EntityProperty::String(data) => EntityProperty::String(
                EntityPropertyData {
                    name: new_name,
                    display_name: data.display_name,
                    default: data.default,
                    description: data.description,
                },
            ),
            EntityProperty::Integer(data) => EntityProperty::Integer(
                EntityPropertyData {
                    name: new_name,
                    display_name: data.display_name,
                    default: data.default,
                    description: data.description,
                },
            ),
            EntityProperty::Boolean(data) => EntityProperty::Boolean(
                EntityPropertyData {
                    name: new_name,
                    display_name: data.display_name,
                    default: data.default,
                    description: data.description,
                },
            ),
            EntityProperty::Float(data) => EntityProperty::Float(
                EntityPropertyData {
                    name: new_name,
                    display_name: data.display_name,
                    default: data.default,
                    description: data.description,
                },
            ),
            EntityProperty::Choices(data, choices) => EntityProperty::Choices(
                EntityPropertyData {
                    name: new_name,
                    display_name: data.display_name,
                    default: data.default,
                    description: data.description,
                },
                choices,
            ),
            EntityProperty::Flags(data) => EntityProperty::Flags(
                FlagsData { name: new_name, flags: data.flags },
            ),
        }
    }

    /// Gives the property another name. Its kind and everything else it
    /// holds stay as they are.
    pub fn set_name(&mut self, new_name: String)
        ensures
            *final(self) == old(self).renamed(new_name),
            final(self).name_view() == new_name@,
            final(self).kind() == old(self).kind(),
    {
        match self {
            EntityProperty::String(data) => {
                data.name = new_name;
            },
            EntityProperty::Integer(data) => {
                data.name = new_name;
            },
            EntityProperty::Boolean(data) => {
                data.name = new_name;
            },
            EntityProperty::Float(data) => {
                data.name = new_name;
            },
            EntityProperty::Choices(data, _) => {
                data.name = new_name;
            },
            EntityProperty::Flags(data) => {
                data.name = new_name;
            },
        }
    }
}

/// The position of the first line feed at or behind `from`, or the length
/// of the text where there is none.
pub open spec fn line_break(text: Seq<char>, from: int) -> int
    decreases text.len() - from,
{
    if 0 <= from < text.len() && text[from] != '\n' {
        line_break(text, from + 1)
    } else {
        from
    }
}

/// A line without the carriage return that belongs to its line ending.
pub open spec fn without_return(line: Seq<char>) -> Seq<char> {
    if line.len() > 0 && line.last() == '\r' {
        line.drop_last()
    } else {
        line
    }
}

/// The lines of a text from `from` on. A line ends at a line feed, with or
/// without a carriage return in front of it; the last line needs no ending.
pub open spec fn lines_from(text: Seq<char>, from: int) -> Seq<Seq<char>>
    decreases text.len() - from,
{
    if from < 0 || from >= text.len() {
        Seq::empty()
    } else {
        let end = line_break(text, from);
        if end >= text.len() {
            seq![text.subrange(from, text.len() as int)]
        } else {
            proof {
                lemma_line_break_bounds(text, from);
            }
            seq![without_return(text.subrange(from, end))] + lines_from(text, end + 1)
        }
    }
}

/// The lines of a text.
pub open spec fn lines_of(text: Seq<char>) -> Seq<Seq<char>> {
    lines_from(text, 0)
}

/// A line break lies at or behind where the search starts, inside the text.
pub proof fn lemma_line_break_bounds(text: Seq<char>, from: int)
    requires
        0 <= from <= text.len(),
    ensures
        from <= line_break(text, from) <= text.len(),
    decreases text.len() - from,
{
    if from < text.len() && text[from] != '\n' {
        lemma_line_break_bounds(text, from + 1);
    }
}

/// What a list of texts holds.
pub open spec fn strings_view(texts: Seq<String>) -> Seq<Seq<char>> {
    Seq::new(texts.len(), |i: int| texts[i]@)
}

/// Splits a text into its lines.
pub fn lines(text: &str) -> (found: Vec<String>)
    ensures
        strings_view(found@) == lines_of(text@),
{
    let n = text.unicode_len();
    let mut found: Vec<String> = Vec::new();
    let mut from: usize = 0;
    assert(strings_view(found@) =~= Seq::<Seq<char>>::empty());
    assert(Seq::<Seq<char>>::empty() + lines_from(text@, 0) =~= lines_from(text@, 0));
    while from < n
        invariant
            n == text@.len(),
            from <= n,
            strings_view(found@) + lines_from(text@, from as int) == lines_of(text@),
        decreases n - from,
    {
        let mut end = from;
        while end < n && text.get_char(end) != '\n'
            invariant
                n == text@.len(),
                from <= end <= n,
                line_break(text@, end as int) == line_break(text@, from as int),
            decreases n - end,
        {
            end += 1;
        }
        let ghost before = strings_view(found@);
        if end >= n {
            let line = text.substring_char(from, n);
            found.push(String::from_str(line));
            proof {
                assert(strings_view(found@) =~= before.push(text@.subrange(from as int, n as int)));
                assert(before.push(text@.subrange(from as int, n as int)) + Seq::<
                    Seq<char>,
                >::empty() =~= before + seq![text@.subrange(from as int, n as int)]);
            }
            from = n;
        } else {
            let stop = if end > from && text.get_char(end - 1) == '\r' {
                end - 1
            } else {
                end
            };
            let line = text.substring_char(from, stop);
            proof {
                let whole = text@.subrange(from as int, end as int);
                if end > from {
                    assert(whole.last() == text@[end - 1]);
                }
                assert(line@ =~= without_return(whole));
            }
            found.push(String::from_str(line));
            proof {
                let rest = lines_from(text@, end + 1);
                assert(strings_view(found@) =~= before.push(line@));
                assert(before.push(line@) + rest =~= before + (seq![line@] + rest));
            }
            from = end + 1;
        }
    }
    proof {
        assert(strings_view(found@) + Seq::<Seq<char>>::empty() =~= strings_view(found@));
    }
    found
}

/// The first `n` names, with a comma and a space between each two.
pub open spec fn joined_names(names: Seq<String>, n: nat) -> Seq<char>
    decreases n,
{
    if n == 0 {
        Seq::empty()
    } else if n == 1 {
        names[0]@
    } else {
        joined_names(names, (n - 1) as nat) + ", "@ + names[n - 1]@
    }
}

/// Something that holds of a whole class.
#[derive(Debug)]
pub enum FgdClassProperty {
    /// The classes that the class builds on.
    Base(Vec<String>),
    /// The model that shows the entity.
    Model(String),
    /// The colour of the entity: red, green and blue.
    Color(u32, u32, u32),
    /// The box round the entity: its least and its greatest corner.
    Size([FloatLiteral; 3], [FloatLiteral; 3]),
}

impl FgdClassProperty {
    /// The text form of the class property.
    pub open spec fn serialized(&self) -> Seq<char> {
        match self {
            FgdClassProperty::Base(names) => "base("@ + joined_names(names@, names@.len()) + ")"@,
            FgdClassProperty::Model(path) => "model("@ + quoted(path@) + ")"@,
            FgdClassProperty::Color(r, g, b) => "color("@ + decimal_digits(*r as nat) + " "@
                + decimal_digits(*g as nat) + " "@ + decimal_digits(*b as nat) + ")"@,
            FgdClassProperty::Size(low, high) => "size("@ + low@[0].text@ + " "@ + low@[1].text@
                + " "@ + low@[2].text@ + ", "@ + high@[0].text@ + " "@ + high@[1].text@ + " "@
                + high@[2].text@ + ")"@,
        }
    }

    /// Writes the class property as its keyword with its values in brackets.
    pub fn serialize(&self) -> (text: String)
        ensures
            text@ == self.serialized(),
    {
        match self {
            FgdClassProperty::Base(names) => {
                let mut text = String::from_str("base(");
                let ghost head = text@;
                let mut i: usize = 0;
                assert(head + Seq::<char>::empty() =~= head);
                while i < names.len()
                    invariant
                        i <= names.len(),
                        text@ == head + joined_names(names@, i as nat),
                    decreases names.len() - i,
                {
                    let ghost before = joined_names(names@, i as nat);
                    if i > 0 {
                        text.append(", ");
                        text.append(names[i].as_str());
                        assert(text@ =~= head + (before + ", "@ + names@[i as int]@));
                    } else {
                        text.append(names[i].as_str());
                        assert(text@ =~= head + names@[0]@);
                    }
                    i += 1;
                }
                text.append(")");
                text
            },
            FgdClassProperty::Model(path) => {
                let mut text = String::from_str("model(");
                text.append(path.to_fgd_literal().as_str());
                text.append(")");
                text
            },
            FgdClassProperty::Color(r, g, b) => {
                let mut text = String::from_str("color(");
                text.append(digits_text(*r).as_str());
                text.append(" ");
                text.append(digits_text(*g).as_str());
                text.append(" ");
                text.append(digits_text(*b).as_str());
                text.append(")");
                text
            },
            FgdClassProperty::Size(low, high) => {
                let mut text = String::from_str("size(");
                text.append(low[0].text.as_str());
                text.append(" ");
                text.append(low[1].text.as_str());
                text.append(" ");
                text.append(low[2].text.as_str());
                text.append(", ");
                text.append(high[0].text.as_str());
                text.append(" ");
                text.append(high[1].text.as_str());
                text.append(" ");
                text.append(high[2].text.as_str());
                text.append(")");
                text
            },
        }
    }
}

/// The first `n` class properties, each followed by a space.
pub open spec fn class_property_list(properties: Seq<FgdClassProperty>, n: nat) -> Seq<char>
    decreases n,
{
    if n == 0 {
        Seq::empty()
    } else {
        class_property_list(properties, (n - 1) as nat) + properties[n - 1].serialized() + " "@
    }
}

/// The first `n` lines of a description. Each line is indented and quoted;
/// every line but the last carries a line break inside the quotes and is
/// joined to the next with a plus sign.
pub open spec fn description_lines(lines: Seq<Seq<char>>, n: nat) -> Seq<char>
    decreases n,
{
    if n == 0 {
        Seq::empty()
    } else if n == lines.len() {
        description_lines(lines, (n - 1) as nat) + tab() + quoted(lines[n - 1]) + "\n"@
    } else {
        description_lines(lines, (n - 1) as nat) + tab() + quoted(lines[n - 1] + "\\n"@)
            + " +\n"@
    }
}

/// The first `n` lines, each indented and ended.
pub open spec fn indented_lines(lines: Seq<Seq<char>>, n: nat) -> Seq<char>
    decreases n,
{
    if n == 0 {
        Seq::empty()
    } else {
        indented_lines(lines, (n - 1) as nat) + tab() + lines[n - 1] + "\n"@
    }
}

/// The first `n` properties, each with all its lines indented.
pub open spec fn property_blocks(properties: Seq<EntityProperty>, n: nat) -> Seq<char>
    decreases n,
{
    if n == 0 {
        Seq::empty()
    } else {
        let lines = lines_of(properties[n - 1].serialized());
        property_blocks(properties, (n - 1) as nat) + indented_lines(lines, lines.len())
    }
}

/// A class of entities.
#[derive(Debug)]
pub struct FgdClass {
    pub class_type: FgdClassType,
    pub name: String,
    pub description: String,
    pub class_properties: Vec<FgdClassProperty>,
    pub entity_properties: Vec<EntityProperty>,
}

impl FgdClass {
    /// The text form of the class.
    pub open spec fn serialized(&self) -> Seq<char> {
        let described = lines_of(self.description@);
        self.class_type.keyword() + " "@ + class_property_list(
            self.class_properties@,
            self.class_properties@.len(),
        ) + "= "@ + self.name@ + " :\n"@ + description_lines(described, described.len()) + "[\n"@
            + property_blocks(self.entity_properties@, self.entity_properties@.len()) + "]"@
    }

    /// Writes the class: its type and class properties, its name, its
    /// description line by line, and its properties in square brackets.
    pub fn serialize(&self) -> (text: String)
        ensures
            text@ == self.serialized(),
    {
        let mut text = String::from_str(self.class_type.serialize());
        text.append(" ");
        let ghost head = text@;
        let mut i: usize = 0;
        assert(head + Seq::<char>::empty() =~= head);
        while i < self.class_properties.len()
            invariant
                i <= self.class_properties.len(),
                text@ == head + class_property_list(self.class_properties@, i as nat),
            decreases self.class_properties.len() - i,
        {
            let ghost before = class_property_list(self.class_properties@, i as nat);
            text.append(self.class_properties[i].serialize().as_str());
            text.append(" ");
            assert(text@ =~= head + (before + self.class_properties@[i as int].serialized() + " "@));
            i += 1;
        }
        text.append("= ");
        text.append(self.name.as_str());
        text.append(" :\n");
        let ghost head = text@;
        let described = lines(self.description.as_str());
        let ghost shown = strings_view(described@);
        let mut i: usize = 0;
        assert(head + Seq::<char>::empty() =~= head);
        while i < described.len()
            invariant
                i <= described.len(),
                shown == strings_view(described@),
                text@ == head + description_lines(shown, i as nat),
            decreases described.len() - i,
        {
            let ghost before = description_lines(shown, i as nat);
            proof {
                reveal_strlit("    ");
                assert("    "@ =~= tab());
                assert(shown[i as int] == described@[i as int]@);
            }
            text.append("    ");
            if i + 1 < described.len() {
                let mut line = described[i].clone();
                line.append("\\n");
                text.append(line.to_fgd_literal().as_str());
                text.append(" +\n");
                assert(text@ =~= head + (before + tab() + quoted(shown[i as int] + "\\n"@)
                    + " +\n"@));
            } else {
                text.append(described[i].to_fgd_literal().as_str());
                text.append("\n");
                assert(text@ =~= head + (before + tab() + quoted(shown[i as int]) + "\n"@));
            }
            i += 1;
        }
        text.append("[\n");
        let ghost head = text@;
        let mut i: usize = 0;
        assert(head + Seq::<char>::empty() =~= head);
        while i < self.entity_properties.len()
            invariant
                i <= self.entity_properties.len(),
                text@ == head + property_blocks(self.entity_properties@, i as nat),
            decreases self.entity_properties.len() - i,
        {
            let ghost before = property_blocks(self.entity_properties@, i as nat);
            let written = self.entity_properties[i].serialize();
            let block = lines(written.as_str());
            let ghost shown = strings_view(block@);
            let ghost start = text@;
            let mut j: usize = 0;
            assert(start + Seq::<char>::empty() =~= start);
            while j < block.len()
                invariant
                    j <= block.len(),
                    shown == strings_view(block@),
                    text@ == start + indented_lines(shown, j as nat),
                decreases block.len() - j,
            {
                let ghost done = indented_lines(shown, j as nat);
                proof {
                    reveal_strlit("    ");
                    assert("    "@ =~= tab());
                    assert(shown[j as int] == block@[j as int]@);
                }
                text.append("    ");
                text.append(block[j].as_str());
                text.append("\n");
                assert(text@ =~= start + (done + tab() + shown[j as int] + "\n"@));
                j += 1;
            }
            assert(text@ =~= head + (before + indented_lines(shown, shown.len())));
            i += 1;
        }
        text.append("]");
        text
    }
}

/// The first `n` includes, each on a line of its own.
pub open spec fn include_lines(includes: Seq<String>, n: nat) -> Seq<char>
    decreases n,
{
    if n == 0 {
        Seq::empty()
    } else {
        include_lines(includes, (n - 1) as nat) + "@include "@ + includes[n - 1]@ + "\n"@
    }
}

/// The first `n` classes, each ended by a line break, with an empty line
/// between each two.
pub open spec fn class_blocks(classes: Seq<FgdClass>, n: nat) -> Seq<char>
    decreases n,
{
    if n == 0 {
        Seq::empty()
    } else if n == classes.len() {
        class_blocks(classes, (n - 1) as nat) + classes[n - 1].serialized() + "\n"@
    } else {
        class_blocks(classes, (n - 1) as nat) + classes[n - 1].serialized() + "\n"@ + "\n"@
    }
}

/// A file of entity definitions.
#[derive(Debug)]
pub struct FgdFile {
    pub name: String,
    pub includes: Vec<String>,
    pub classes: Vec<FgdClass>,
}

impl FgdFile {
    /// The text form of the file.
    pub open spec fn serialized(&self) -> Seq<char> {
        (if self.includes@.len() > 0 {
            include_lines(self.includes@, self.includes@.len()) + "\n"@
        } else {
            Seq::<char>::empty()
        }) + class_blocks(self.classes@, self.classes@.len())
    }

    /// Writes the file: the includes, an empty line if there are any, and
    /// the classes with an empty line between each two.
    pub fn serialize(&self) -> (text: String)
        ensures
            text@ == self.serialized(),
    {
        let mut text = String::new();
        if self.includes.len() > 0 {
            let mut i: usize = 0;
            while i < self.includes.len()
                invariant
                    i <= self.includes.len(),
                    text@ == include_lines(self.includes@, i as nat),
                decreases self.includes.len() - i,
            {
                let ghost before = include_lines(self.includes@, i as nat);
                text.append("@include ");
                text.append(self.includes[i].as_str());
                text.append("\n");
                assert(text@ =~= before + "@include "@ + self.includes@[i as int]@ + "\n"@);
                i += 1;
            }
            text.append("\n");
        }
        let ghost head = text@;
        let mut i: usize = 0;
        assert(head + Seq::<char>::empty() =~= head);
        while i < self.classes.len()
            invariant
                i <= self.classes.len(),
                text@ == head + class_blocks(self.classes@, i as nat),
            decreases self.classes.len() - i,
        {
            let ghost before = class_blocks(self.classes@, i as nat);
            text.append(self.classes[i].serialize().as_str());
            text.append("\n");
            if i + 1 < self.classes.len() {
                text.append("\n");
                assert(text@ =~= head + (before + self.classes@[i as int].serialized() + "\n"@
                    + "\n"@));
            } else {
                assert(text@ =~= head + (before + self.classes@[i as int].serialized() + "\n"@));
            }
            i += 1;
        }
        text
    }
}

} // verus!
