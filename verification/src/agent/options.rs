//! The agent's options, as the JVM passes them on the command line
//! (`-agentpath:...=agentid=x,config=y,interval=10,trace`).
use crate::collections::{header_lookup, lookup, props_view};
use crate::file_utils::str_chars_eq;
use crate::text::{chars_of, string_from_char_range, string_from_chars};
use vstd::prelude::*;

verus! {

/// What the options say: the agent id, the arguments other than the agent
/// id and the configuration file (each `key=value`, or `key` alone with an
/// empty value), and where the configuration file is.
pub struct OptionsModel {
    pub agent_id: Seq<char>,
    pub custom_args: Seq<(Seq<char>, Seq<char>)>,
    pub config_location: Option<Seq<char>>,
}

/// The options before any argument is read.
pub open spec fn default_options() -> OptionsModel {
    OptionsModel { agent_id: "jvmti"@, custom_args: Seq::empty(), config_location: None }
}

/// The pieces of `s` between commas, as `str::split(",")` gives them.
pub open spec fn split_commas(s: Seq<char>) -> Seq<Seq<char>>
    decreases s.len(),
{
    if s.len() == 0 {
        seq![Seq::<char>::empty()]
    } else {
        let p = split_commas(s.drop_last());
        if s.last() == ',' {
            p.push(Seq::empty())
        } else {
            p.update(p.len() - 1, p.last().push(s.last()))
        }
    }
}

/// Where the first `=` of `s` stands, if it has one.
pub open spec fn first_eq(s: Seq<char>) -> Option<int> {
    if exists|i: int| 0 <= i < s.len() && s[i] == '=' {
        Some(
            choose|i: int|
                0 <= i < s.len() && s[i] == '=' && forall|j: int| 0 <= j < i ==> s[j] != '=',
        )
    } else {
        None
    }
}

/// The options after reading one `key=value` pair.
pub open spec fn set_key_value(o: OptionsModel, key: Seq<char>, value: Seq<char>) -> OptionsModel {
    if key == "agentid"@ {
        OptionsModel { agent_id: value, ..o }
    } else if key == "config"@ {
        OptionsModel { config_location: Some(value), ..o }
    } else {
        OptionsModel { custom_args: o.custom_args.push((key, value)), ..o }
    }
}

/// The options after reading one argument: a `key=value` pair split at
/// its first `=`, or a directive without a value.
pub open spec fn apply_arg(o: OptionsModel, arg: Seq<char>) -> OptionsModel {
    match first_eq(arg) {
        Some(p) => set_key_value(o, arg.take(p), arg.skip(p + 1)),
        None => OptionsModel { custom_args: o.custom_args.push((arg, Seq::empty())), ..o },
    }
}

/// The options after reading the arguments in order.
pub open spec fn apply_args(args: Seq<Seq<char>>) -> OptionsModel
    decreases args.len(),
{
    if args.len() == 0 {
        default_options()
    } else {
        apply_arg(apply_args(args.drop_last()), args.last())
    }
}

/// The options that a command-line argument string gives.
pub open spec fn parse_options(s: Seq<char>) -> OptionsModel {
    if s.len() == 0 {
        default_options()
    } else {
        apply_args(split_commas(s))
    }
}

/// The options the agent was started with.
#[derive(Debug)]
pub struct Options {
    pub agent_id: String,
    /// The other arguments, in order; a later one replaces an earlier one
    /// of the same name.
    pub custom_args: Vec<(String, String)>,
    pub config_location: Option<String>,
}

impl Options {
    /// What these options say.
    pub open spec fn model(&self) -> OptionsModel {
        OptionsModel {
            agent_id: self.agent_id@,
            custom_args: props_view(self.custom_args@),
            config_location: match self.config_location {
                Some(c) => Some(c@),
                None => None,
            },
        }
    }

    /// Reads a comma-separated string of command-line arguments.
    pub fn parse(opt_args: String) -> (r: Options)
        ensures
            r.model() == parse_options(opt_args@),
    {
        let mut options = Options::default();
        let cs = chars_of(opt_args.as_str());
        if cs.len() > 0 {
            let mut cur: Vec<char> = Vec::new();
            let mut i: usize = 0;
            assert(cs@.take(0) =~= Seq::<char>::empty());
            while i < cs.len()
                invariant
                    i <= cs@.len(),
                    cs@ == opt_args@,
                    split_commas(cs@.take(i as int)).len() >= 1,
                    options.model() == apply_args(split_commas(cs@.take(i as int)).drop_last()),
                    cur@ == split_commas(cs@.take(i as int)).last(),
                decreases cs@.len() - i,
            {
                let c = cs[i];
                let ghost p = split_commas(cs@.take(i as int));
                assert(cs@.take(i + 1).drop_last() =~= cs@.take(i as int));
                assert(cs@.take(i + 1).last() == c);
                if c == ',' {
                    Options::parse_arg(&mut options, cur.as_slice());
                    assert(p.push(Seq::<char>::empty()).drop_last() =~= p);
                    assert(p.drop_last().push(p.last()) =~= p);
                    cur = Vec::new();
                } else {
                    cur.push(c);
                    assert(p.update(p.len() - 1, p.last().push(c)).drop_last() =~= p.drop_last());
                }
                i = i + 1;
            }
            let ghost p = split_commas(cs@.take(i as int));
            assert(cs@.take(i as int) =~= cs@);
            Options::parse_arg(&mut options, cur.as_slice());
            assert(p.drop_last().push(p.last()) =~= p);
        }
        options
    }

    /// Reads one argument: a `key=value` pair split at its first `=`, or a
    /// directive without a value.
    fn parse_arg(options: &mut Options, arg: &[char])
        ensures
            final(options).model() == apply_arg(old(options).model(), arg@),
    {
        let mut i: usize = 0;
        while i < arg.len() && arg[i] != '='
            invariant
                i <= arg@.len(),
                forall|j: int| 0 <= j < i ==> arg@[j] != '=',
            decreases arg@.len() - i,
        {
            i = i + 1;
        }
        if i < arg.len() {
            assert(first_eq(arg@) == Some(i as int)) by {
                let k = choose|k: int|
                    0 <= k < arg@.len() && arg@[k] == '=' && forall|j: int|
                        0 <= j < k ==> arg@[j] != '=';
                assert(arg@[i as int] == '=');
                if k < i {
                    assert(arg@[k] != '=');
                } else if k > i {
                    assert(arg@[i as int] != '=');
                }
            }
            let key = string_from_char_range(arg, 0, i);
            let value = string_from_char_range(arg, i + 1, arg.len());
            assert(arg@.subrange(0, i as int) =~= arg@.take(i as int));
            assert(arg@.subrange(i + 1, arg@.len() as int) =~= arg@.skip(i + 1));
            Options::parse_key_value(options, key.as_str(), value.as_str());
        } else {
            assert(first_eq(arg@) is None);
            let directive = string_from_chars(arg);
            Options::parse_directive(options, directive.as_str());
        }
    }

    /// Reads a `key=value` pair: `agentid` and `config` set their fields,
    /// any other key is kept with its value.
    fn parse_key_value(options: &mut Options, key: &str, value: &str)
        ensures
            final(options).model() == set_key_value(old(options).model(), key@, value@),
    {
        if str_chars_eq(key, "agentid") {
            options.agent_id = value.to_owned();
        } else if str_chars_eq(key, "config") {
            options.config_location = Some(value.to_owned());
        } else {
            let ghost before = options.custom_args@;
            options.custom_args.push((key.to_owned(), value.to_owned()));
            assert(props_view(options.custom_args@) =~= props_view(before).push((key@, value@)));
        }
    }

    /// Reads a directive: it is kept with an empty value.
    fn parse_directive(options: &mut Options, directive: &str)
        ensures
            final(options).model() == (OptionsModel {
                custom_args: old(options).model().custom_args.push((directive@, Seq::empty())),
                ..old(options).model()
            }),
    {
        let ghost before = options.custom_args@;
        options.custom_args.push((directive.to_owned(), String::new()));
        assert(props_view(options.custom_args@) =~= props_view(before).push(
            (directive@, Seq::<char>::empty()),
        ));
    }

    /// The options before any argument is read: agent id `jvmti`, no
    /// other argument, no configuration file.
    pub fn default() -> (r: Options)
        ensures
            r.model() == default_options(),
    {
        let r = Options { agent_id: "jvmti".to_owned(), custom_args: Vec::new(), config_location: None };
        assert(props_view(r.custom_args@) =~= Seq::<(Seq<char>, Seq<char>)>::empty());
        r
    }

    /// The value of the argument `key`: the last one given.
    pub fn custom_arg(&self, key: &str) -> (r: Option<&String>)
        ensures
            match header_lookup(self.model().custom_args, key@) {
                Some(v) => r matches Some(s) && s@ == v,
                None => r is None,
            },
    {
        lookup(&self.custom_args, key)
    }
}

} // verus!
