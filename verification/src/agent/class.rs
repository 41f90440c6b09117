//! Java types as the JVM writes them in signatures, and the classes the
//! agent reports on.
use super::native::JavaClass;
use crate::text::{chars_of, string_from_chars};
use vstd::prelude::*;
use vstd::string::StrSliceExecFns;

verus! {

/// The possible Java types.
#[derive(Debug, PartialEq, Eq)]
pub enum JavaType<'a> {
    Boolean,
    Byte,
    Char,
    Double,
    Float,
    Int,
    Long,
    Short,
    Void,
    /// A class type, holding its whole signature (`Ljava/lang/String;`).
    Class(&'a str),
    Array(Box<JavaType<'a>>),
}

/// The primitive type that a one-letter signature names.
pub open spec fn primitive_of(c: char) -> Option<JavaType<'static>> {
    if c == 'B' {
        Some(JavaType::Byte)
    } else if c == 'C' {
        Some(JavaType::Char)
    } else if c == 'D' {
        Some(JavaType::Double)
    } else if c == 'F' {
        Some(JavaType::Float)
    } else if c == 'I' {
        Some(JavaType::Int)
    } else if c == 'J' {
        Some(JavaType::Long)
    } else if c == 'S' {
        Some(JavaType::Short)
    } else if c == 'V' {
        Some(JavaType::Void)
    } else if c == 'Z' {
        Some(JavaType::Boolean)
    } else {
        None
    }
}

/// Whether a signature names a type: a primitive letter alone, `L`
/// followed by at least one character, or `[` followed by a signature.
pub open spec fn parsable(s: Seq<char>) -> bool
    decreases s.len(),
{
    if s.len() == 0 {
        false
    } else if s.len() == 1 {
        primitive_of(s[0]) is Some
    } else if s[0] == '[' {
        parsable(s.drop_first())
    } else {
        s[0] == 'L'
    }
}

/// `s` without its leading `L`s.
pub open spec fn strip_leading_ls(s: Seq<char>) -> Seq<char>
    decreases s.len(),
{
    if s.len() > 0 && s[0] == 'L' {
        strip_leading_ls(s.drop_first())
    } else {
        s
    }
}

/// `s` without `;`, with each `/` turned into `.`.
pub open spec fn dotted(s: Seq<char>) -> Seq<char>
    decreases s.len(),
{
    if s.len() == 0 {
        s
    } else {
        let c = s.last();
        dotted(s.drop_last()) + if c == ';' {
            Seq::<char>::empty()
        } else if c == '/' {
            seq!['.']
        } else {
            seq![c]
        }
    }
}

impl<'a> JavaType<'a> {
    /// The signature that names this type.
    pub open spec fn signature(&self) -> Seq<char>
        decreases self,
    {
        match self {
            JavaType::Boolean => seq!['Z'],
            JavaType::Byte => seq!['B'],
            JavaType::Char => seq!['C'],
            JavaType::Double => seq!['D'],
            JavaType::Float => seq!['F'],
            JavaType::Int => seq!['I'],
            JavaType::Long => seq!['J'],
            JavaType::Short => seq!['S'],
            JavaType::Void => seq!['V'],
            JavaType::Class(c) => c@,
            JavaType::Array(inner) => seq!['['] + inner.signature(),
        }
    }

    /// Whether each class type in this type holds a signature that starts
    /// with `L` and has more than one character.
    pub open spec fn well_formed(&self) -> bool
        decreases self,
    {
        match self {
            JavaType::Class(c) => c@.len() >= 2 && c@[0] == 'L',
            JavaType::Array(inner) => inner.well_formed(),
            _ => true,
        }
    }

    /// The conventional, human-readable name of this type.
    pub open spec fn readable(&self) -> Seq<char>
        decreases self,
    {
        match self {
            JavaType::Boolean => "boolean"@,
            JavaType::Byte => "byte"@,
            JavaType::Char => "char"@,
            JavaType::Double => "double"@,
            JavaType::Float => "float"@,
            JavaType::Int => "int"@,
            JavaType::Long => "long"@,
            JavaType::Short => "short"@,
            JavaType::Void => "void"@,
            JavaType::Class(c) => dotted(strip_leading_ls(c@)),
            JavaType::Array(inner) => inner.readable() + "[]"@,
        }
    }

    /// The type that a signature names, if it names one.
    pub fn parse(signature: &'a str) -> (r: Option<JavaType<'a>>)
        ensures
            r is Some <==> parsable(signature@),
            r matches Some(t) ==> t.well_formed() && t.signature() == signature@,
        decreases signature@.len(),
    {
        let n = signature.unicode_len();
        if n == 0 {
            return None;
        }
        let c = signature.get_char(0);
        if n == 1 {
            proof {
                assert(signature@ =~= seq![c]);
            }
            match c {
                'B' => Some(JavaType::Byte),
                'C' => Some(JavaType::Char),
                'D' => Some(JavaType::Double),
                'F' => Some(JavaType::Float),
                'I' => Some(JavaType::Int),
                'J' => Some(JavaType::Long),
                'S' => Some(JavaType::Short),
                'V' => Some(JavaType::Void),
                'Z' => Some(JavaType::Boolean),
                _ => None,
            }
        } else if c == '[' {
            let local_type = signature.substring_char(1, n);
            assert(local_type@ =~= signature@.drop_first());
            match JavaType::parse(local_type) {
                Some(result) => {
                    assert(seq!['['] + result.signature() =~= signature@);
                    Some(JavaType::Array(Box::new(result)))
                },
                None => None,
            }
        } else if c == 'L' {
            Some(JavaType::Class(signature))
        } else {
            None
        }
    }

    /// The conventional, human-readable name of a type (`int`,
    /// `java.lang.String`, `byte[]`).
    pub fn to_string(java_type: &JavaType) -> (r: String)
        ensures
            r@ == java_type.readable(),
        decreases java_type,
    {
        match java_type {
            JavaType::Byte => "byte".to_owned(),
            JavaType::Char => "char".to_owned(),
            JavaType::Double => "double".to_owned(),
            JavaType::Float => "float".to_owned(),
            JavaType::Int => "int".to_owned(),
            JavaType::Long => "long".to_owned(),
            JavaType::Short => "short".to_owned(),
            JavaType::Void => "void".to_owned(),
            JavaType::Boolean => "boolean".to_owned(),
            JavaType::Array(inner_type) => {
                let inner = JavaType::to_string(inner_type);
                let mut cs = chars_of(inner.as_str());
                cs.push('[');
                cs.push(']');
                assert(cs@ =~= inner@ + "[]"@) by {
                    reveal_strlit("[]");
                }
                string_from_chars(cs.as_slice())
            },
            JavaType::Class(cls) => {
                let cs = class_display(*cls);
                string_from_chars(cs.as_slice())
            },
        }
    }
}

/// The readable name of a class signature: leading `L`s dropped, `;`
/// removed, `/` turned into `.`.
fn class_display(cls: &str) -> (r: Vec<char>)
    ensures
        r@ == dotted(strip_leading_ls(cls@)),
{
    let cs = chars_of(cls);
    let mut a: usize = 0;
    assert(cs@.subrange(0, cs@.len() as int) =~= cs@);
    while a < cs.len() && cs[a] == 'L'
        invariant
            a <= cs@.len(),
            cs@ == cls@,
            strip_leading_ls(cls@) == strip_leading_ls(cs@.subrange(a as int, cs@.len() as int)),
        decreases cs@.len() - a,
    {
        assert(cs@.subrange(a as int, cs@.len() as int).drop_first() =~= cs@.subrange(
            a + 1,
            cs@.len() as int,
        ));
        a = a + 1;
    }
    let ghost t = cs@.subrange(a as int, cs@.len() as int);
    assert(strip_leading_ls(t) == t);
    let mut out: Vec<char> = Vec::new();
    let mut i = a;
    assert(t.take(0) =~= Seq::<char>::empty());
    while i < cs.len()
        invariant
            a <= i <= cs@.len(),
            t == cs@.subrange(a as int, cs@.len() as int),
            out@ == dotted(t.take(i - a)),
        decreases cs@.len() - i,
    {
        let c = cs[i];
        assert(t.take(i - a + 1).drop_last() =~= t.take(i - a));
        assert(t.take(i - a + 1).last() == c);
        if c == ';' {
        } else if c == '/' {
            out.push('.');
        } else {
            out.push(c);
        }
        i = i + 1;
        assert(out@ =~= dotted(t.take(i - a)));
    }
    assert(t.take(i - a) =~= t);
    out
}

/// A JNI reference to a Java class.
pub struct ClassId {
    pub native_id: JavaClass,
}

/// The package, name and generic signature of a class.
pub struct ClassSignature {
    /// The package, as `Class.getPackage()` names it: `java.lang`.
    pub package: String,
    /// The name, as `Class.getName()` gives it: `java.lang.String`.
    pub name: String,
    pub generic: String,
}

/// Where the last `.` of `s` stands, if it has one.
pub open spec fn last_dot(s: Seq<char>) -> Option<int>
    decreases s.len(),
{
    if s.len() == 0 {
        None
    } else if s.last() == '.' {
        Some(s.len() - 1)
    } else {
        last_dot(s.drop_last())
    }
}

/// `s` without its trailing `.`s.
pub open spec fn trim_end_dots(s: Seq<char>) -> Seq<char>
    decreases s.len(),
{
    if s.len() > 0 && s.last() == '.' {
        trim_end_dots(s.drop_last())
    } else {
        s
    }
}

/// The package part of a readable class name: what comes before its last
/// `.`, without trailing dots; nothing when there is no `.`.
pub open spec fn package_of(s: Seq<char>) -> Seq<char> {
    match last_dot(s) {
        Some(i) => trim_end_dots(s.take(i)),
        None => Seq::empty(),
    }
}

/// The characters of `s` before its last `.`, without trailing dots.
fn package_part(s: &[char]) -> (r: Vec<char>)
    ensures
        r@ == package_of(s@),
{
    let mut z: usize = s.len();
    assert(s@.take(s@.len() as int) =~= s@);
    while z > 0 && s[z - 1] != '.'
        invariant
            z <= s@.len(),
            last_dot(s@) == last_dot(s@.take(z as int)),
        decreases z,
    {
        assert(s@.take(z as int).drop_last() =~= s@.take(z - 1));
        z = z - 1;
    }
    let mut out: Vec<char> = Vec::new();
    if z == 0 {
        assert(s@.take(0) =~= Seq::<char>::empty());
        return out;
    }
    let mut e = z - 1;
    assert(last_dot(s@) == Some((z - 1) as int));
    assert(trim_end_dots(s@.take(z - 1)) == trim_end_dots(s@.take(e as int)));
    while e > 0 && s[e - 1] == '.'
        invariant
            e < z <= s@.len(),
            trim_end_dots(s@.take(z - 1)) == trim_end_dots(s@.take(e as int)),
        decreases e,
    {
        assert(s@.take(e as int).drop_last() =~= s@.take(e - 1));
        e = e - 1;
    }
    let mut i: usize = 0;
    while i < e
        invariant
            e < z <= s@.len(),
            i <= e,
            out@ == s@.take(i as int),
        decreases e - i,
    {
        out.push(s[i]);
        i = i + 1;
        assert(out@ =~= s@.take(i as int));
    }
    out
}

impl ClassSignature {
    /// The signature of a class of the given type: its package and its
    /// readable name, with the given generic signature.
    pub fn new(java_type: &JavaType, raw_generic: String) -> (r: ClassSignature)
        ensures
            r.name@ == java_type.readable(),
            r.package@ == package_of(java_type.readable()),
            r.generic@ == raw_generic@,
    {
        let name = JavaType::to_string(java_type);
        let cs = chars_of(name.as_str());
        let pkg = package_part(cs.as_slice());
        ClassSignature { package: string_from_chars(pkg.as_slice()), name, generic: raw_generic }
    }

    /// The readable name of the class.
    pub fn to_string(&self) -> (r: String)
        ensures
            r@ == self.name@,
    {
        self.name.clone()
    }
}

/// A Java class.
pub struct Class {
    pub id: ClassId,
    pub signature: ClassSignature,
}

impl Class {
    /// A class with the given reference and type, without generic signature.
    pub fn new<'a>(id: ClassId, signature: JavaType<'a>) -> (r: Class)
        ensures
            r.id == id,
            r.signature.name@ == signature.readable(),
            r.signature.package@ == package_of(signature.readable()),
            r.signature.generic@ == Seq::<char>::empty(),
    {
        Class { id, signature: ClassSignature::new(&signature, String::new()) }
    }

    /// The readable name of this class.
    pub fn to_string(&self) -> (r: String)
        ensures
            r@ == self.signature.name@,
    {
        self.signature.to_string()
    }
}

} // verus!
