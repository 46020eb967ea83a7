//! Headings: their levels, and the attributes that are shown after their text.

use vstd::prelude::*;

use crate::event::{option_view, HeadingLevel, HeadingMeta, HeadingMetaView};
use crate::strings::{join_strings, joined, lemma_strings_view_push, strings_view};

verus! {

broadcast use lemma_strings_view_push;

impl HeadingLevel {
    /// The level as a number from 1 to 6.
    #[verifier::allow_in_spec]
    pub fn number(self) -> u8
        returns
            (match self {
                HeadingLevel::H1 => 1u8,
                HeadingLevel::H2 => 2u8,
                HeadingLevel::H3 => 3u8,
                HeadingLevel::H4 => 4u8,
                HeadingLevel::H5 => 5u8,
                HeadingLevel::H6 => 6u8,
            }),
    {
        match self {
            HeadingLevel::H1 => 1,
            HeadingLevel::H2 => 2,
            HeadingLevel::H3 => 3,
            HeadingLevel::H4 => 4,
            HeadingLevel::H5 => 5,
            HeadingLevel::H6 => 6,
        }
    }
}

/// How an attribute is written: `key=value`, or `key` alone.
pub open spec fn attr_part(attr: (Seq<char>, Option<Seq<char>>)) -> Seq<char> {
    match attr.1 {
        Some(value) => attr.0 + "="@ + value,
        None => attr.0,
    }
}

impl HeadingMetaView {
    /// Whether there is no attribute at all.
    pub open spec fn is_empty(self) -> bool {
        self.id is None && self.classes.len() == 0 && self.attrs.len() == 0
    }

    /// The attributes as they are written: the identifier as `#id`, then each class as `.class`,
    /// then each further attribute.
    pub open spec fn parts(self) -> Seq<Seq<char>> {
        let id = match self.id {
            Some(id) => seq!["#"@ + id],
            None => Seq::empty(),
        };
        id + self.classes.map_values(|class: Seq<char>| "."@ + class) + self.attrs.map_values(
            |attr: (Seq<char>, Option<Seq<char>>)| attr_part(attr),
        )
    }

    /// What is shown after the text of the heading: a space and the attributes between braces.
    pub open spec fn suffix(self) -> Option<Seq<char>> {
        if self.is_empty() {
            None
        } else {
            Some(" {"@ + joined(self.parts(), " "@) + "}"@)
        }
    }

    /// The attributes, if there are any.
    pub open spec fn non_empty(self) -> Option<HeadingMetaView> {
        if self.is_empty() {
            None
        } else {
            Some(self)
        }
    }
}

/// What optional attributes hold.
pub open spec fn meta_view(meta: Option<HeadingMeta>) -> Option<HeadingMetaView> {
    match meta {
        Some(meta) => Some(meta@),
        None => None,
    }
}

impl HeadingMeta {
    /// The attributes, if there are any.
    pub fn into_option(self) -> (res: Option<HeadingMeta>)
        ensures
            meta_view(res) == self@.non_empty(),
    {
        let has_id = self.id.is_some();
        let has_classes = !self.classes.is_empty();
        let has_attrs = !self.attrs.is_empty();
        if has_id || has_classes || has_attrs {
            Some(self)
        } else {
            None
        }
    }

    /// What is shown after the text of the heading, for example ` {#id .class key=value}`.
    pub fn to_suffix(&self) -> (res: Option<String>)
        ensures
            option_view(res) == self@.suffix(),
    {
        let ghost view = self@;
        let ghost id_parts = match view.id {
            Some(id) => seq!["#"@ + id],
            None => Seq::empty(),
        };
        let ghost class_parts = view.classes.map_values(|class: Seq<char>| "."@ + class);
        let ghost attr_parts = view.attrs.map_values(
            |attr: (Seq<char>, Option<Seq<char>>)| attr_part(attr),
        );
        let mut parts: Vec<String> = Vec::new();
        assert(strings_view(parts@) =~= Seq::empty());
        if let Some(id) = &self.id {
            let mut part = "#".to_owned();
            part.append(id.as_str());
            parts.push(part);
        }
        assert(strings_view(parts@) =~= id_parts);
        let mut i: usize = 0;
        while i < self.classes.len()
            invariant
                i <= self.classes.len(),
                view == self@,
                class_parts == view.classes.map_values(|class: Seq<char>| "."@ + class),
                strings_view(parts@) =~= id_parts + class_parts.take(i as int),
            decreases self.classes.len() - i,
        {
            assert(view.classes[i as int] == self.classes@[i as int]@);
            let mut part = ".".to_owned();
            part.append(self.classes[i].as_str());
            assert(part@ == class_parts[i as int]);
            parts.push(part);
            i += 1;
            assert(class_parts.take(i as int) =~= class_parts.take(i - 1).push(part@));
        }
        assert(class_parts.take(i as int) =~= class_parts);
        let mut j: usize = 0;
        while j < self.attrs.len()
            invariant
                j <= self.attrs.len(),
                view == self@,
                attr_parts == view.attrs.map_values(
                    |attr: (Seq<char>, Option<Seq<char>>)| attr_part(attr),
                ),
                strings_view(parts@) =~= id_parts + class_parts + attr_parts.take(j as int),
            decreases self.attrs.len() - j,
        {
            let ghost attr = self.attrs@[j as int];
            assert(view.attrs[j as int] == (attr.0@, option_view(attr.1)));
            let mut part = self.attrs[j].0.clone();
            if let Some(value) = &self.attrs[j].1 {
                part.append("=");
                part.append(value.as_str());
            }
            assert(part@ == attr_parts[j as int]);
            parts.push(part);
            j += 1;
            assert(attr_parts.take(j as int) =~= attr_parts.take(j - 1).push(part@));
        }
        assert(attr_parts.take(j as int) =~= attr_parts);
        assert(strings_view(parts@) =~= view.parts());
        if parts.is_empty() {
            assert(view.parts().len() == 0);
            None
        } else {
            let mut suffix = " {".to_owned();
            suffix.append(join_strings(&parts, " ").as_str());
            suffix.append("}");
            assert(view.parts().len() > 0);
            Some(suffix)
        }
    }
}

} // verus!
