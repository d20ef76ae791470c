use vstd::prelude::*;
use vstd::string::*;

verus! {

broadcast use vstd::string::group_string_axioms;

/// Outcome of checking one form field.
#[derive(Debug, Clone, PartialEq, Eq)]
pub enum ValidationResult {
    Valid,
    Invalid(String),
}

impl ValidationResult {
    pub fn is_valid(&self) -> (r: bool)
        ensures
            r == (self is Valid),
    {
        match self {
            ValidationResult::Valid => true,
            ValidationResult::Invalid(_) => false,
        }
    }

    pub fn error_message(&self) -> (r: Option<&str>)
        ensures
            match self {
                ValidationResult::Invalid(m) => r matches Some(t) && t@ == m@,
                ValidationResult::Valid => r is None,
            },
    {
        match self {
            ValidationResult::Invalid(msg) => Some(msg.as_str()),
            ValidationResult::Valid => None,
        }
    }
}

impl Default for ValidationResult {
    fn default() -> (r: Self)
        ensures
            r is Valid,
    {
        ValidationResult::Valid
    }
}

/// What a text field shows: label, value, cursor, error and hint.
pub struct FormFieldWidget<'a> {
    pub label: &'a str,
    pub value: &'a str,
    pub cursor: usize,
    pub focused: bool,
    pub required: bool,
    pub error: Option<&'a str>,
    pub hint: Option<&'a str>,
    pub placeholder: Option<&'a str>,
}

impl<'a> FormFieldWidget<'a> {
    /// An unfocused, optional field with its cursor after the last character.
    pub fn new(label: &'a str, value: &'a str) -> (r: Self)
        ensures
            r.label == label,
            r.value == value,
            r.cursor == value@.len(),
            !r.focused,
            !r.required,
            r.error is None,
            r.hint is None,
            r.placeholder is None,
    {
        let n = value.unicode_len();
        FormFieldWidget {
            label,
            value,
            cursor: n,
            focused: false,
            required: false,
            error: None,
            hint: None,
            placeholder: None,
        }
    }

    pub fn focused(self, focused: bool) -> (r: Self)
        ensures
            r == (FormFieldWidget { focused, ..self }),
    {
        FormFieldWidget { focused, ..self }
    }

    pub fn cursor(self, cursor: usize) -> (r: Self)
        ensures
            r == (FormFieldWidget { cursor, ..self }),
    {
        FormFieldWidget { cursor, ..self }
    }

    pub fn required(self, required: bool) -> (r: Self)
        ensures
            r == (FormFieldWidget { required, ..self }),
    {
        FormFieldWidget { required, ..self }
    }

    pub fn error(self, error: Option<&'a str>) -> (r: Self)
        ensures
            r == (FormFieldWidget { error, ..self }),
    {
        FormFieldWidget { error, ..self }
    }

    pub fn hint(self, hint: Option<&'a str>) -> (r: Self)
        ensures
            r == (FormFieldWidget { hint, ..self }),
    {
        FormFieldWidget { hint, ..self }
    }

    pub fn placeholder(self, placeholder: Option<&'a str>) -> (r: Self)
        ensures
            r == (FormFieldWidget { placeholder, ..self }),
    {
        FormFieldWidget { placeholder, ..self }
    }

    /// Rows needed: label and input box, one more for an error, one more for
    /// a hint while focused.
    pub fn height(&self) -> (r: u16)
        ensures
            r == 3 + (if self.error is Some { 1int } else { 0 }) + (if self.hint is Some
                && self.focused { 1int } else { 0 }),
    {
        let mut h: u16 = 3;
        if self.error.is_some() {
            h = h + 1;
        }
        if self.hint.is_some() && self.focused {
            h = h + 1;
        }
        h
    }
}

/// What a choice field shows.
pub struct SelectorFieldWidget<'a> {
    pub label: &'a str,
    pub options: &'a [String],
    pub selected: usize,
    pub focused: bool,
}

impl<'a> SelectorFieldWidget<'a> {
    pub fn new(label: &'a str, options: &'a [String], selected: usize) -> (r: Self)
        ensures
            r.label == label,
            r.options == options,
            r.selected == selected,
            !r.focused,
    {
        SelectorFieldWidget { label, options, selected, focused: false }
    }

    pub fn focused(self, focused: bool) -> (r: Self)
        ensures
            r == (SelectorFieldWidget { focused, ..self }),
    {
        SelectorFieldWidget { focused, ..self }
    }
}

/// What a yes/no field shows.
pub struct ToggleFieldWidget<'a> {
    pub label: &'a str,
    pub value: bool,
    pub focused: bool,
}

impl<'a> ToggleFieldWidget<'a> {
    pub fn new(label: &'a str, value: bool) -> (r: Self)
        ensures
            r.label == label,
            r.value == value,
            !r.focused,
    {
        ToggleFieldWidget { label, value, focused: false }
    }

    pub fn focused(self, focused: bool) -> (r: Self)
        ensures
            r == (ToggleFieldWidget { focused, ..self }),
    {
        ToggleFieldWidget { focused, ..self }
    }
}

} // verus!
