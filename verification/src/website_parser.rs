use vstd::prelude::*;

verus! {

/// What a source file defines, judged by its extension.
pub enum ComponentExtension {
    /// A markup definition (`html` or `xml`).
    Xml,
    /// A stylesheet definition (`css`).
    Css,
    /// Anything else: warned about and skipped.
    Invalid,
}

pub open spec fn ext_html() -> Seq<char> {
    seq!['h', 't', 'm', 'l']
}

pub open spec fn ext_xml() -> Seq<char> {
    seq!['x', 'm', 'l']
}

pub open spec fn ext_css() -> Seq<char> {
    seq!['c', 's', 's']
}

/// The extension convention: `html` and `xml` files hold markup, `css`
/// files hold stylesheets, anything else is invalid.
pub open spec fn extension_spec(s: Seq<char>) -> ComponentExtension {
    if s == ext_html() || s == ext_xml() {
        ComponentExtension::Xml
    } else if s == ext_css() {
        ComponentExtension::Css
    } else {
        ComponentExtension::Invalid
    }
}

/// Classifies a source file's extension, as `extension_spec` does.
pub fn get_component_extension(extension: &str) -> (r: ComponentExtension)
    ensures
        r == extension_spec(extension@),
{
    let s = crate::text::str_to_chars(extension);
    if s.len() == 4 && s[0] == 'h' && s[1] == 't' && s[2] == 'm' && s[3] == 'l' {
        proof {
            assert(s@ =~= ext_html());
        }
        ComponentExtension::Xml
    } else if s.len() == 3 && s[0] == 'x' && s[1] == 'm' && s[2] == 'l' {
        proof {
            assert(s@ =~= ext_xml());
        }
        ComponentExtension::Xml
    } else if s.len() == 3 && s[0] == 'c' && s[1] == 's' && s[2] == 's' {
        proof {
            assert(s@ =~= ext_css());
        }
        ComponentExtension::Css
    } else {
        proof {
            assert(s@ != ext_html() && s@ != ext_xml() && s@ != ext_css());
        }
        ComponentExtension::Invalid
    }
}

} // verus!
