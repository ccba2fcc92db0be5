use vstd::prelude::*;

use crate::Command;

verus! {

/// Text order of the standard library's `String`: character by character.
pub open spec fn text_le(a: Seq<char>, b: Seq<char>) -> bool
    decreases a.len(),
{
    if a.len() == 0 {
        true
    } else if b.len() == 0 {
        false
    } else if (a[0] as u32) != (b[0] as u32) {
        (a[0] as u32) < (b[0] as u32)
    } else {
        text_le(a.drop_first(), b.drop_first())
    }
}

pub open spec fn row_views(rows: Seq<(String, String)>) -> Seq<(Seq<char>, Seq<char>)> {
    rows.map_values(|p: (String, String)| (p.0@, p.1@))
}

pub open spec fn sorted_by_name(rows: Seq<(Seq<char>, Seq<char>)>) -> bool {
    forall|i: int, j: int| 0 <= i < j < rows.len() ==> text_le(rows[i].0, rows[j].0)
}

/// The name and description of each subcommand of `c`.
pub open spec fn sub_rows(c: Command) -> Seq<(Seq<char>, Seq<char>)> {
    c.spec_subcommands().map_values(|s: Command| (s.spec_name(), s.spec_description()))
}

/// The text that tabular lays out for these rows in two left-aligned, indented columns.
pub uninterp spec fn command_table(rows: Seq<(Seq<char>, Seq<char>)>) -> Seq<char>;

/// Relies on `slice::sort_by` with `String::cmp` on the first field: the rows are
/// reordered, none is added or lost, and names come in text order.
#[verifier::external_body]
fn sort_rows(rows: &mut Vec<(String, String)>)
    ensures
        row_views(final(rows)@).to_multiset() == row_views(old(rows)@).to_multiset(),
        sorted_by_name(row_views(final(rows)@)),
{
    rows.sort_by(|a, b| a.0.cmp(&b.0));
}

/// Relies on tabular's `Table` with the row format `  {:<}  {:<}` and its `Display`.
#[verifier::external_body]
fn render_table(rows: &Vec<(String, String)>) -> (r: String)
    ensures
        r@ == command_table(row_views(rows@)),
{
    let mut table = tabular::Table::new("  {:<}  {:<}");
    for (name, description) in rows.iter() {
        table.add_row(tabular::Row::new().with_cell(name).with_cell(description));
    }
    table.to_string()
}

pub open spec fn title_part(c: Command) -> Seq<char> {
    if c.spec_name().len() == 0 {
        Seq::empty()
    } else if c.spec_version().len() == 0 {
        c.spec_name() + "\n"@
    } else {
        c.spec_name() + " "@ + c.spec_version() + "\n"@
    }
}

pub open spec fn description_part(c: Command) -> Seq<char> {
    if c.spec_description().len() == 0 {
        Seq::empty()
    } else {
        "\nDESCRIPTION\n  "@ + c.spec_description() + "\n"@
    }
}

pub open spec fn usage_part(c: Command, program: Seq<char>) -> Seq<char> {
    "\nUSAGE\n  $ "@ + program + (if c.spec_subcommands().len() > 0 {
        " COMMAND"@
    } else {
        Seq::empty()
    }) + (if c.spec_options().len() > 0 {
        " [OPTIONS]"@
    } else {
        Seq::empty()
    }) + "\n"@
}

pub open spec fn example_part(c: Command) -> Seq<char> {
    if c.spec_example().len() == 0 {
        Seq::empty()
    } else {
        "\nEXAMPLE\n  $ "@ + c.spec_example() + "\n"@
    }
}

pub open spec fn commands_part(program: Seq<char>, table: Seq<char>) -> Seq<char> {
    "\nCOMMANDS\n  Use \""@ + program + " [COMMAND] --help\" for more information about a command.\n"@
        + "\nAvailable Commands:\n"@ + table + "\n"@
}

/// The help page of `c` for the program `program`, around the rendered `table`.
pub open spec fn help_layout(c: Command, program: Seq<char>, table: Seq<char>) -> Seq<char> {
    title_part(c) + description_part(c) + usage_part(c, program) + example_part(c)
        + commands_part(program, table)
}

impl Command {
    fn title_text(&self) -> (r: String)
        ensures
            r@ == title_part(*self),
    {
        let mut r = String::new();
        if self.get_name().unicode_len() > 0 {
            r.append(self.get_name().as_str());
            if self.get_version().unicode_len() > 0 {
                r.append(" ");
                r.append(self.get_version().as_str());
            }
            r.append("\n");
        }
        proof {
            if self.spec_name().len() == 0 {
                assert(r@ =~= Seq::<char>::empty());
            }
        }
        r
    }

    fn description_text(&self) -> (r: String)
        ensures
            r@ == description_part(*self),
    {
        let mut r = String::new();
        if self.get_description().unicode_len() > 0 {
            r.append("\nDESCRIPTION\n  ");
            r.append(self.get_description().as_str());
            r.append("\n");
        }
        proof {
            if self.spec_description().len() == 0 {
                assert(r@ =~= Seq::<char>::empty());
            }
        }
        r
    }

    fn usage_text(&self, program: &str) -> (r: String)
        ensures
            r@ == usage_part(*self, program@),
    {
        let mut r = String::new();
        r.append("\nUSAGE\n  $ ");
        r.append(program);
        let commands = self.subcommand_rows().len() > 0;
        let options = self.option_count() > 0;
        if commands {
            r.append(" COMMAND");
        }
        if options {
            r.append(" [OPTIONS]");
        }
        r.append("\n");
        proof {
            assert(Seq::<char>::empty() + "\nUSAGE\n  $ "@ =~= "\nUSAGE\n  $ "@);
            let base = "\nUSAGE\n  $ "@ + program@;
            assert(base + Seq::<char>::empty() =~= base);
            let mid = base + (if commands {
                " COMMAND"@
            } else {
                Seq::<char>::empty()
            });
            assert(mid + Seq::<char>::empty() =~= mid);
        }
        r
    }

    fn example_text(&self) -> (r: String)
        ensures
            r@ == example_part(*self),
    {
        let mut r = String::new();
        if self.get_example().unicode_len() > 0 {
            r.append("\nEXAMPLE\n  $ ");
            r.append(self.get_example().as_str());
            r.append("\n");
        }
        proof {
            if self.spec_example().len() == 0 {
                assert(r@ =~= Seq::<char>::empty());
            }
        }
        r
    }

    /// The help page of this command for the program `program`: its title, description,
    /// usage, example and a table of its subcommands sorted by name.
    pub fn help_text(&self, program: &str) -> (r: String)
        ensures
            exists|rows: Seq<(Seq<char>, Seq<char>)>|
                {
                    &&& sorted_by_name(rows)
                    &&& rows.to_multiset() == sub_rows(*self).to_multiset()
                    &&& r@ == help_layout(*self, program@, command_table(rows))
                },
    {
        let mut rows = self.subcommand_rows();
        proof {
            assert(row_views(rows@) =~= sub_rows(*self));
        }
        sort_rows(&mut rows);
        let table = render_table(&rows);
        let mut r = self.title_text();
        let d = self.description_text();
        r.append(d.as_str());
        let u = self.usage_text(program);
        r.append(u.as_str());
        let e = self.example_text();
        r.append(e.as_str());
        r.append("\nCOMMANDS\n  Use \"");
        r.append(program);
        r.append(" [COMMAND] --help\" for more information about a command.\n");
        r.append("\nAvailable Commands:\n");
        r.append(table.as_str());
        r.append("\n");
        proof {
            let head = title_part(*self) + description_part(*self) + usage_part(*self, program@)
                + example_part(*self);
            assert(r@ =~= head + commands_part(program@, command_table(row_views(rows@))));
        }
        r
    }

    /// The version line of this command for the program `program`.
    pub fn version_text(&self, program: &str) -> (r: String)
        ensures
            r@ == program@ + " "@ + self.spec_version(),
    {
        let mut r = program.to_string();
        r.append(" ");
        r.append(self.get_version().as_str());
        r
    }
}

} // verus!
