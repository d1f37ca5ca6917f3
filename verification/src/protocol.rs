//! The request protocol: which commands exist, which arguments each takes,
//! and validation of a decoded request against those tables.  Wire-level
//! framing and JSON decoding are the transport boundary's business; the
//! validation here works on the already decoded command name and argument
//! pairs.

use vstd::prelude::*;
use vstd::pervasive::VecAdditionalExecFns;
use vstd::string::*;
use crate::entities::{first_where, lemma_first_where, lemma_first_where_is};
use crate::strutil::{str_eq, str_views};

verus! {

pub struct JsonProtocol {
    /// All command names the protocol accepts.
    pub allowed_commands: Vec<String>,
    /// The argument names each command accepts.
    pub allowed_arguments: Vec<(String, Vec<String>)>,
    /// The command of the last validated request.
    pub command: String,
    /// The arguments of the last validated request, newest value per name.
    pub arguments: Vec<(String, String)>,
}

/// The argument pair carries this name.
pub open spec fn arg_name_is(name: Seq<char>) -> spec_fn((String, String)) -> bool {
    |a: (String, String)| a.0@ == name
}

/// The table row belongs to this command.
pub open spec fn table_key_is(name: Seq<char>) -> spec_fn((String, Vec<String>)) -> bool {
    |row: (String, Vec<String>)| row.0@ == name
}

/// Storing one argument: the newest value wins, a new name is appended.
pub open spec fn spec_insert_arg(s: Seq<(String, String)>, a: (String, String)) -> Seq<
    (String, String),
> {
    let i = first_where(s, arg_name_is(a.0@));
    if i == -1 {
        s.push(a)
    } else {
        s.update(i, a)
    }
}

/// Storing the first `k` arguments in order.
pub open spec fn spec_insert_args(
    s: Seq<(String, String)>,
    args: Seq<(String, String)>,
    k: int,
) -> Seq<(String, String)>
    decreases k,
{
    if k <= 0 {
        s
    } else {
        spec_insert_arg(spec_insert_args(s, args, k - 1), args[k - 1])
    }
}

/// The names a command accepts, per the table.
pub open spec fn allowed_args_of(
    table: Seq<(String, Vec<String>)>,
    cmd: Seq<char>,
) -> Seq<Seq<char>> {
    let i = first_where(table, table_key_is(cmd));
    if i == -1 {
        Seq::<Seq<char>>::empty()
    } else {
        str_views(table[i].1@)
    }
}

/// The quoted, comma-separated rendering of a list of names, as in the
/// protocol's error messages.
pub open spec fn quoted_list(xs: Seq<Seq<char>>) -> Seq<char>
    decreases xs.len(),
{
    if xs.len() == 0 {
        Seq::<char>::empty()
    } else if xs.len() == 1 {
        "\""@ + xs[0] + "\""@
    } else {
        "\""@ + xs[0] + "\""@ + ", "@ + quoted_list(xs.drop_first())
    }
}

pub open spec fn debug_list(xs: Seq<Seq<char>>) -> Seq<char> {
    "["@ + quoted_list(xs) + "]"@
}

proof fn lemma_quoted_list_push(xs: Seq<Seq<char>>, e: Seq<char>)
    ensures
        quoted_list(xs.push(e)) == if xs.len() == 0 {
            "\""@ + e + "\""@
        } else {
            quoted_list(xs) + ", "@ + "\""@ + e + "\""@
        },
    decreases xs.len(),
{
    if xs.len() == 0 {
        assert(xs.push(e).len() == 1);
        assert(xs.push(e)[0] == e);
    } else if xs.len() == 1 {
        assert(xs.push(e)[0] == xs[0]);
        assert(xs.push(e).drop_first() =~= seq![e]);
        assert(quoted_list(seq![e]) == "\""@ + e + "\""@);
        assert("\""@ + xs[0] + "\""@ + ", "@ + ("\""@ + e + "\""@) =~= ("\""@ + xs[0] + "\""@)
            + ", "@ + "\""@ + e + "\""@);
    } else {
        assert(xs.push(e)[0] == xs[0]);
        assert(xs.push(e).drop_first() =~= xs.drop_first().push(e));
        lemma_quoted_list_push(xs.drop_first(), e);
        assert("\""@ + xs[0] + "\""@ + ", "@ + (quoted_list(xs.drop_first()) + ", "@ + ("\""@ + e
            + "\""@)) =~= ("\""@ + xs[0] + "\""@ + ", "@ + quoted_list(xs.drop_first())) + ", "@
            + "\""@ + e + "\""@);
    }
}

/// Writes `["a", "b"]`-style renderings of a name list.
fn render_debug_list(v: &Vec<String>) -> (r: String)
    ensures
        r@ == debug_list(str_views(v@)),
{
    let mut out = String::new();
    out.append("[");
    let n = v.len();
    let mut i: usize = 0;
    while i < n
        invariant
            0 <= i <= n,
            n == v@.len(),
            out@ == "["@ + quoted_list(str_views(v@.subrange(0, i as int))),
        decreases n - i,
    {
        if i > 0 {
            out.append(", ");
        }
        out.append("\"");
        out.append(v[i].as_str());
        out.append("\"");
        proof {
            assert(str_views(v@.subrange(0, i + 1)) =~= str_views(v@.subrange(0, i as int)).push(
                v@[i as int]@,
            ));
            lemma_quoted_list_push(str_views(v@.subrange(0, i as int)), v@[i as int]@);
            if i == 0 {
                assert(str_views(v@.subrange(0, 0)).len() == 0);
            }
            assert(out@ =~= "["@ + quoted_list(str_views(v@.subrange(0, i + 1))));
        }
        i = i + 1;
    }
    proof {
        assert(v@.subrange(0, n as int) =~= v@);
    }
    out.append("]");
    proof {
        assert(out@ =~= debug_list(str_views(v@)));
    }
    out
}

/// The error sent back for a command outside the table.
pub open spec fn msg_command_not_supported(cmd: Seq<char>) -> Seq<char> {
    "You must use one of the following supported commands: [\"state\", \"shutdown\", \"rename_topic\", \"launch\", \"cleanup\", \"configure\"]. Command "@
        + cmd + " is not supported"@
}

/// The error sent back for an argument a command does not take.
pub open spec fn msg_argument_not_allowed(
    name: Seq<char>,
    cmd: Seq<char>,
    allowed: Seq<Seq<char>>,
) -> Seq<char> {
    "Argument "@ + name + " is not allowed for command "@ + cmd
        + ". Allowed arguments for this command: "@ + debug_list(allowed)
}

/// The result is an error carrying exactly this message.
pub open spec fn err_msg_is(r: Result<(), String>, m: Seq<char>) -> bool {
    match r {
        Result::Err(e) => e@ == m,
        Result::Ok(_) => false,
    }
}

/// The argument's name is outside the allowed list.
pub open spec fn arg_not_allowed(allowed: Seq<Seq<char>>) -> spec_fn((String, String)) -> bool {
    |a: (String, String)| !allowed.contains(a.0@)
}

impl JsonProtocol {
    /// The protocol tables: six commands; the rename takes the two topic
    /// names, the others take at most a node name.
    pub fn new() -> (r: JsonProtocol)
        ensures
            str_views(r.allowed_commands@) =~= seq![
                "state"@,
                "shutdown"@,
                "rename_topic"@,
                "launch"@,
                "cleanup"@,
                "configure"@,
            ],
            r.allowed_arguments@.len() == 6,
            r.allowed_arguments@[0].0@ == "state"@ && str_views(r.allowed_arguments@[0].1@)
                =~= Seq::<Seq<char>>::empty(),
            r.allowed_arguments@[1].0@ == "shutdown"@ && str_views(r.allowed_arguments@[1].1@)
                =~= seq!["node_name"@],
            r.allowed_arguments@[2].0@ == "rename_topic"@ && str_views(r.allowed_arguments@[2].1@)
                =~= seq!["old_topic_name"@, "new_topic_name"@],
            r.allowed_arguments@[3].0@ == "launch"@ && str_views(r.allowed_arguments@[3].1@)
                =~= seq!["node_name"@],
            r.allowed_arguments@[4].0@ == "cleanup"@ && str_views(r.allowed_arguments@[4].1@)
                =~= seq!["node_name"@],
            r.allowed_arguments@[5].0@ == "configure"@ && str_views(r.allowed_arguments@[5].1@)
                =~= seq!["node_name"@],
            r.command@ == Seq::<char>::empty(),
            r.arguments@ == Seq::<(String, String)>::empty(),
    {
        let mut commands: Vec<String> = Vec::new();
        let mut arguments: Vec<(String, Vec<String>)> = Vec::new();

        commands.push(String::from_str("state"));
        let state_args: Vec<String> = Vec::new();
        arguments.push((String::from_str("state"), state_args));

        commands.push(String::from_str("shutdown"));
        let mut kill_node_args: Vec<String> = Vec::new();
        kill_node_args.push(String::from_str("node_name"));
        arguments.push((String::from_str("shutdown"), kill_node_args));

        commands.push(String::from_str("rename_topic"));
        let mut rename_topic_args: Vec<String> = Vec::new();
        rename_topic_args.push(String::from_str("old_topic_name"));
        rename_topic_args.push(String::from_str("new_topic_name"));
        arguments.push((String::from_str("rename_topic"), rename_topic_args));

        commands.push(String::from_str("launch"));
        let mut start_node_args: Vec<String> = Vec::new();
        start_node_args.push(String::from_str("node_name"));
        arguments.push((String::from_str("launch"), start_node_args));

        commands.push(String::from_str("cleanup"));
        let mut cleanup_node_args: Vec<String> = Vec::new();
        cleanup_node_args.push(String::from_str("node_name"));
        arguments.push((String::from_str("cleanup"), cleanup_node_args));

        commands.push(String::from_str("configure"));
        let mut configure_node_args: Vec<String> = Vec::new();
        configure_node_args.push(String::from_str("node_name"));
        arguments.push((String::from_str("configure"), configure_node_args));

        let r = JsonProtocol {
            allowed_commands: commands,
            allowed_arguments: arguments,
            command: String::new(),
            arguments: Vec::new(),
        };
        proof {
            assert(str_views(r.allowed_commands@) =~= seq![
                "state"@,
                "shutdown"@,
                "rename_topic"@,
                "launch"@,
                "cleanup"@,
                "configure"@,
            ]);
            assert(str_views(r.allowed_arguments@[0].1@) =~= Seq::<Seq<char>>::empty());
            assert(str_views(r.allowed_arguments@[1].1@) =~= seq!["node_name"@]);
            assert(str_views(r.allowed_arguments@[2].1@) =~= seq![
                "old_topic_name"@,
                "new_topic_name"@,
            ]);
            assert(str_views(r.allowed_arguments@[3].1@) =~= seq!["node_name"@]);
            assert(str_views(r.allowed_arguments@[4].1@) =~= seq!["node_name"@]);
            assert(str_views(r.allowed_arguments@[5].1@) =~= seq!["node_name"@]);
        }
        r
    }

    /// Validates a decoded request against the tables: the command must be
    /// allowed, and each argument name must be allowed for it.  On success
    /// the command and arguments are stored, the newest value per name
    /// winning; validation stops at the first offending argument.
    pub fn parse_request(&mut self, command: String, arguments: Vec<(String, String)>) -> (r:
        Result<(), String>)
        requires
            str_views(old(self).allowed_commands@).contains(command@) ==> first_where(
                old(self).allowed_arguments@,
                table_key_is(command@),
            ) != -1,
        ensures
            ({
                let cmd_ok = str_views(old(self).allowed_commands@).contains(command@);
                let allowed = allowed_args_of(old(self).allowed_arguments@, command@);
                let bad = first_where(arguments@, arg_not_allowed(allowed));
                &&& final(self).allowed_commands == old(self).allowed_commands
                &&& final(self).allowed_arguments == old(self).allowed_arguments
                &&& (r is Ok <==> cmd_ok && bad == -1)
                &&& (!cmd_ok ==> final(self).command == old(self).command
                    && final(self).arguments == old(self).arguments && err_msg_is(
                    r,
                    msg_command_not_supported(command@),
                ))
                &&& (cmd_ok ==> final(self).command@ == command@)
                &&& (cmd_ok && bad == -1 ==> final(self).arguments@ == spec_insert_args(
                    old(self).arguments@,
                    arguments@,
                    arguments@.len() as int,
                ))
                &&& (cmd_ok && bad != -1 ==> final(self).arguments@ == spec_insert_args(
                    old(self).arguments@,
                    arguments@,
                    bad,
                ) && err_msg_is(
                    r,
                    msg_argument_not_allowed(arguments@[bad].0@, command@, allowed),
                ))
            }),
    {
        let cmd_ok = crate::strutil::vec_contains_str(&self.allowed_commands, command.as_str());
        if !cmd_ok {
            let mut msg = String::from_str(
                "You must use one of the following supported commands: [\"state\", \"shutdown\", \"rename_topic\", \"launch\", \"cleanup\", \"configure\"]. Command ",
            );
            msg.append(command.as_str());
            msg.append(" is not supported");
            proof {
                assert(msg@ =~= msg_command_not_supported(command@));
            }
            return Err(msg);
        }
        self.command = command.clone();

        let row = match find_table_row(&self.allowed_arguments, command.as_str()) {
            Some(row) => row,
            None => {
                proof {
                    assert(false);
                }
                0
            },
        };
        let ghost allowed = allowed_args_of(self.allowed_arguments@, command@);

        let n = arguments.len();
        let mut k: usize = 0;
        while k < n
            invariant
                0 <= k <= n,
                n == arguments@.len(),
                str_views(old(self).allowed_commands@).contains(command@),
                row < self.allowed_arguments@.len(),
                first_where(self.allowed_arguments@, table_key_is(command@)) == row as int,
                allowed == allowed_args_of(self.allowed_arguments@, command@),
                self.allowed_commands == old(self).allowed_commands,
                self.allowed_arguments == old(self).allowed_arguments,
                self.command@ == command@,
                forall|j: int| 0 <= j < k ==> !arg_not_allowed(allowed)(arguments@[j]),
                self.arguments@ == spec_insert_args(old(self).arguments@, arguments@, k as int),
            decreases n - k,
        {
            let arg_name = arguments[k].0.clone();
            let arg_value = arguments[k].1.clone();
            let name_ok = crate::strutil::vec_contains_str(
                &self.allowed_arguments[row].1,
                arg_name.as_str(),
            );
            if !name_ok {
                proof {
                    lemma_first_where_is(arguments@, arg_not_allowed(allowed), k as int);
                }
                let mut msg = String::from_str("Argument ");
                msg.append(arg_name.as_str());
                msg.append(" is not allowed for command ");
                msg.append(command.as_str());
                msg.append(". Allowed arguments for this command: ");
                let rendered = render_debug_list(&self.allowed_arguments[row].1);
                msg.append(rendered.as_str());
                proof {
                    assert(msg@ =~= msg_argument_not_allowed(
                        arguments@[k as int].0@,
                        command@,
                        allowed,
                    ));
                }
                return Err(msg);
            }
            // Store the argument, replacing an earlier value of the same
            // name.
            match find_arg_index(&self.arguments, arg_name.as_str()) {
                Some(stored) => {
                    self.arguments.set(stored, (arg_name, arg_value));
                },
                None => {
                    self.arguments.push((arg_name, arg_value));
                },
            }
            proof {
                assert(self.arguments@ =~= spec_insert_args(
                    old(self).arguments@,
                    arguments@,
                    k + 1,
                ));
            }
            k = k + 1;
        }
        proof {
            lemma_first_where(arguments@, arg_not_allowed(allowed));
        }
        Ok(())
    }
}

/// Index of the command's row in the argument table.
fn find_table_row(table: &Vec<(String, Vec<String>)>, cmd: &str) -> (r: Option<usize>)
    ensures
        match r {
            Some(i) => i < table@.len() && first_where(table@, table_key_is(cmd@)) == i as int,
            None => first_where(table@, table_key_is(cmd@)) == -1,
        },
{
    let n = table.len();
    let mut i: usize = 0;
    while i < n
        invariant
            0 <= i <= n,
            n == table@.len(),
            forall|j: int| 0 <= j < i ==> !table_key_is(cmd@)(table@[j]),
        decreases n - i,
    {
        if str_eq(table[i].0.as_str(), cmd) {
            proof {
                lemma_first_where_is(table@, table_key_is(cmd@), i as int);
            }
            return Some(i);
        }
        i = i + 1;
    }
    proof {
        lemma_first_where(table@, table_key_is(cmd@));
    }
    None
}

/// Index of the stored argument of that name.
pub(crate) fn find_arg_index(args: &Vec<(String, String)>, name: &str) -> (r: Option<usize>)
    ensures
        match r {
            Some(i) => i < args@.len() && first_where(args@, arg_name_is(name@)) == i as int,
            None => first_where(args@, arg_name_is(name@)) == -1,
        },
{
    let n = args.len();
    let mut i: usize = 0;
    while i < n
        invariant
            0 <= i <= n,
            n == args@.len(),
            forall|j: int| 0 <= j < i ==> !arg_name_is(name@)(args@[j]),
        decreases n - i,
    {
        if str_eq(args[i].0.as_str(), name) {
            proof {
                lemma_first_where_is(args@, arg_name_is(name@), i as int);
            }
            return Some(i);
        }
        i = i + 1;
    }
    proof {
        lemma_first_where(args@, arg_name_is(name@));
    }
    None
}

} // verus!
