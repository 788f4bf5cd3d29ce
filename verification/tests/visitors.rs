use leek_ast::ast::statements::Statements;
use leek_ast::ast::statements::assignment::AssignmentList;
use leek_ast::ast::statements::if_statement::IfStatement;
use leek_ast::ast::structure::file::File;
use leek_ast::ast::terminal::identifier::Identifier;
use leek_ast::ast::terminal::symbol::{Comma, Semi};
use leek_ast::ast::trivia::comment::Comment;
use leek_ast::ast::trivia::trivia::Trivia;
use leek_ast::ast::trivia::with_trivia::WithTrivia;
use leek_ast::ast::utils::separated::Separated;
use leek_ast::parser::Parser;
use leek_ast::visitor::{Node, NodeView, OwnedNode, Visitable, VisitableMut, Visitor, VisitorMut};
use leek_ast::visitor::writer::Writer;

/// Gathers the names in the order in which they are seen.
struct Names(Vec<String>);

impl Visitor for Names {
    type State = ();

    fn state(&self) {}

    fn on(_: (), _: NodeView) -> ((), bool) {
        unreachable!()
    }

    fn visit(&mut self, node: Node<'_>) -> bool {
        match node {
            Node::Identifier(name) => {
                self.0.push(name.0.clone());
                true
            },
            _ => false,
        }
    }
}

/// Counts the statements that it is shown, and goes on into each.
struct Count(usize);

impl Visitor for Count {
    type State = ();

    fn state(&self) {}

    fn on(_: (), _: NodeView) -> ((), bool) {
        unreachable!()
    }

    fn visit(&mut self, node: Node<'_>) -> bool {
        if let Node::Statements(_) = node {
            self.0 += 1;
        }
        false
    }
}

/// Takes over every `if` statement, so that nothing within one is seen.
struct Shallow(Vec<String>);

impl Visitor for Shallow {
    type State = ();

    fn state(&self) {}

    fn on(_: (), _: NodeView) -> ((), bool) {
        unreachable!()
    }

    fn visit(&mut self, node: Node<'_>) -> bool {
        match node {
            Node::IfStatement(_) => true,
            Node::Identifier(name) => {
                self.0.push(name.0.clone());
                true
            },
            _ => false,
        }
    }
}

/// Writes every name in upper case.
struct Shout;

impl VisitorMut for Shout {
    type State = ();

    fn state(&self) {}

    fn on_mut(_: (), _: NodeView) -> ((), Option<NodeView>) {
        unreachable!()
    }

    fn visit_mut(&mut self, node: Node<'_>) -> Option<OwnedNode> {
        match node {
            Node::Identifier(name) => Some(OwnedNode::Identifier(Identifier(name.0.to_uppercase()))),
            _ => None,
        }
    }
}

/// Hands back a node of another kind than the one it is shown.
struct Confused;

impl VisitorMut for Confused {
    type State = ();

    fn state(&self) {}

    fn on_mut(_: (), _: NodeView) -> ((), Option<NodeView>) {
        unreachable!()
    }

    fn visit_mut(&mut self, node: Node<'_>) -> Option<OwnedNode> {
        match node {
            Node::Identifier(_) => Some(OwnedNode::Semi(Semi)),
            _ => None,
        }
    }
}

fn bare<T>(node: T) -> WithTrivia<T> {
    WithTrivia { trivias: vec![], node }
}

fn parse(source: &str) -> File {
    let (rest, file) = File::parse(source).expect("the source parses");
    assert_eq!(rest, "");
    file
}

#[test]
fn the_writer_writes_what_was_read() {
    let source = "/* head */\nglobal int a = 0x1, b = 'two';\ninclude(\"x.leek\")\nif (a) // why\n  var c = 1.5e3 ;\nelse\n  b\n;\n";
    assert_eq!(Writer::write(&parse(source)), source);
}

#[test]
fn the_writer_writes_any_node() {
    let (_, list) = AssignmentList::parse("a ,b= 1").unwrap();
    assert_eq!(Writer::write(&list), "a ,b= 1");
    let (_, node) = IfStatement::parse(" if(x)y").unwrap();
    assert_eq!(Writer::write(&node), " if(x)y");
    assert_eq!(Writer::write(&Comment::SingleLine(" c".to_string(), false)), "// c");
    assert_eq!(Writer::write(&Comment::SingleLine(" c".to_string(), true)), "// c\n");
    assert_eq!(Writer::write(&Comment::MultiLine(" c ".to_string())), "/* c */");
    assert_eq!(Writer::write(&Statements::EmptyStatement(vec![Trivia::Comment(Comment::MultiLine("x".to_string()))])), "/*x*/");
}

#[test]
fn the_writer_goes_on_from_what_it_has_written() {
    let mut writer = Writer::new();
    assert_eq!(writer.0, "");
    writer.add_assign("// generated\n");
    parse("var a;").accept(&mut writer);
    parse(" var b;").accept(&mut writer);
    assert_eq!(writer.0, "// generated\nvar a; var b;");
}

#[test]
fn a_separated_list_is_written_item_by_item() {
    let list = Separated::<WithTrivia<Semi>, WithTrivia<Comma>, 0, 9>(
        vec![bare(Semi), bare(Semi), bare(Semi)],
        vec![bare(Comma), bare(Comma)],
    );
    assert_eq!(Writer::write(&list), ";,;,;");
    let short = Separated::<WithTrivia<Semi>, WithTrivia<Comma>, 0, 9>(
        vec![bare(Semi), bare(Semi), bare(Semi)],
        vec![bare(Comma)],
    );
    assert_eq!(Writer::write(&short), ";,;;");
    let long = Separated::<WithTrivia<Semi>, WithTrivia<Comma>, 0, 9>(
        vec![bare(Semi)],
        vec![bare(Comma), bare(Comma)],
    );
    assert_eq!(Writer::write(&long), ";");
    let none = Separated::<WithTrivia<Semi>, WithTrivia<Comma>, 0, 9>(vec![], vec![bare(Comma)]);
    assert_eq!(Writer::write(&none), "");
}

#[test]
fn a_visitor_sees_the_nodes_in_the_order_of_the_text() {
    let mut names = Names(vec![]);
    parse("global int a = b, c; if (d) var e; else var f = g").accept(&mut names);
    assert_eq!(names.0, vec!["int", "a", "b", "c", "d", "e", "f", "g"]);
}

#[test]
fn a_visitor_that_does_not_take_over_is_shown_the_children() {
    let mut count = Count(0);
    parse("a; if (b) if (c) d else e").accept(&mut count);
    assert_eq!(count.0, 6);
}

#[test]
fn a_visitor_that_takes_over_hides_the_children() {
    let mut shallow = Shallow(vec![]);
    parse("a; if (b) c; d").accept(&mut shallow);
    assert_eq!(shallow.0, vec!["a", "d"]);
}

#[test]
fn a_rewriting_visitor_replaces_nodes_in_place() {
    let mut file = parse("global int a = b;\nif (c) var d = 'e' else f");
    file.accept_mut(&mut Shout);
    assert_eq!(Writer::write(&file), "global INT A = B;\nif (C) var D = 'e' else F");
}

#[test]
fn a_node_of_another_kind_is_not_put_in_place() {
    let source = "var a = b";
    let mut file = parse(source);
    file.accept_mut(&mut Confused);
    assert_eq!(file, parse(source));
}
