use hielements::lexer::{Lexer, TokenKind};

    #[test]
    fn test_simple_element() {
        let source = "element test:\n    scope x = files.folder('src')";
        let mut lexer = Lexer::new(source);
        let tokens = lexer.tokenize();

        let kinds: Vec<_> = tokens.iter().map(|t| &t.kind).collect();
        assert!(kinds.contains(&&TokenKind::Element));
        assert!(kinds.contains(&&TokenKind::Identifier));
        assert!(kinds.contains(&&TokenKind::Colon));
        assert!(kinds.contains(&&TokenKind::Indent));
        assert!(kinds.contains(&&TokenKind::Scope));
    }

    #[test]
    fn test_string_literals() {
        let source = r#"'single' "double""#;
        let mut lexer = Lexer::new(source);
        let tokens = lexer.tokenize();

        assert!(tokens.iter().any(|t| t.kind == TokenKind::StringSingle));
        assert!(tokens.iter().any(|t| t.kind == TokenKind::StringDouble));
    }

    #[test]
    fn test_keywords() {
        let source = "element template implements scope connection_point check import from as true false";
        let mut lexer = Lexer::new(source);
        let tokens = lexer.tokenize();

        let kinds: Vec<_> = tokens.iter().map(|t| &t.kind).collect();
        assert!(kinds.contains(&&TokenKind::Element));
        assert!(kinds.contains(&&TokenKind::Template));
        assert!(kinds.contains(&&TokenKind::Implements));
        assert!(kinds.contains(&&TokenKind::Scope));
        assert!(kinds.contains(&&TokenKind::ConnectionPoint));
        assert!(kinds.contains(&&TokenKind::Check));
        assert!(kinds.contains(&&TokenKind::Import));
        assert!(kinds.contains(&&TokenKind::From));
        assert!(kinds.contains(&&TokenKind::As));
        assert!(kinds.contains(&&TokenKind::True));
        assert!(kinds.contains(&&TokenKind::False));
    }

    #[test]
    fn test_template_keyword() {
        let source = "template compiler:\n    element lexer";
        let mut lexer = Lexer::new(source);
        let tokens = lexer.tokenize();

        let kinds: Vec<_> = tokens.iter().map(|t| &t.kind).collect();
        assert!(kinds.contains(&&TokenKind::Template));
        assert!(kinds.contains(&&TokenKind::Identifier));
        assert!(kinds.contains(&&TokenKind::Colon));
        assert!(kinds.contains(&&TokenKind::Element));
    }

    #[test]
    fn test_implements_keyword() {
        let source = "element service implements microservice";
        let mut lexer = Lexer::new(source);
        let tokens = lexer.tokenize();

        let kinds: Vec<_> = tokens.iter().map(|t| &t.kind).collect();
        assert!(kinds.contains(&&TokenKind::Element));
        assert!(kinds.contains(&&TokenKind::Implements));
    }

    #[test]
    fn test_transitivity_keywords() {
        let source = "requires_descendant allows_connection forbids_connection requires_connection to";
        let mut lexer = Lexer::new(source);
        let tokens = lexer.tokenize();

        let kinds: Vec<_> = tokens.iter().map(|t| &t.kind).collect();
        assert!(kinds.contains(&&TokenKind::RequiresDescendant));
        assert!(kinds.contains(&&TokenKind::AllowsConnection));
        assert!(kinds.contains(&&TokenKind::ForbidsConnection));
        assert!(kinds.contains(&&TokenKind::RequiresConnection));
        assert!(kinds.contains(&&TokenKind::To));
    }

    #[test]
    fn test_star_token() {
        let source = "database.*";
        let mut lexer = Lexer::new(source);
        let tokens = lexer.tokenize();

        let kinds: Vec<_> = tokens.iter().map(|t| &t.kind).collect();
        assert!(kinds.contains(&&TokenKind::Identifier));
        assert!(kinds.contains(&&TokenKind::Dot));
        assert!(kinds.contains(&&TokenKind::Star));
    }

    #[test]
    fn token_spans_follow_lines_and_indentation() {
        let source = "element a:\n    check b\n";
        let mut lexer = Lexer::new(source);
        let tokens = lexer.tokenize();
        let kinds: Vec<TokenKind> = tokens.iter().map(|t| t.kind).collect();
        assert_eq!(
            kinds,
            vec![
                TokenKind::Element,
                TokenKind::Identifier,
                TokenKind::Colon,
                TokenKind::Newline,
                TokenKind::Indent,
                TokenKind::Check,
                TokenKind::Identifier,
                TokenKind::Newline,
                TokenKind::Dedent,
                TokenKind::Eof,
            ]
        );
        // `element` spans bytes 0..7 of line 1.
        assert_eq!(tokens[0].span.start.line, 1);
        assert_eq!(tokens[0].span.start.column, 1);
        assert_eq!(tokens[0].span.end.offset, 7);
        // The indent spans the four spaces at the start of line 2.
        assert_eq!(tokens[4].span.start.line, 2);
        assert_eq!(tokens[4].span.start.offset, 11);
        assert_eq!(tokens[4].span.end.offset, 15);
        // `check` starts at column 5 of line 2.
        assert_eq!(tokens[5].span.start.column, 5);
        assert_eq!(tokens[5].span.start.offset, 15);
        // The closing dedent and the end stand at column 1 of line 3.
        assert_eq!(tokens[8].span.start.line, 3);
        assert_eq!(tokens[9].span.start.column, 1);
        assert_eq!(tokens[9].span.start.offset, 23);
    }

    #[test]
    fn doc_comments_are_kept_and_plain_comments_skipped() {
        let source = "## about a\n# plain\n### block ###\nelement a";
        let mut lexer = Lexer::new(source);
        let tokens = lexer.tokenize();
        let kinds: Vec<TokenKind> = tokens.iter().map(|t| t.kind).collect();
        assert_eq!(
            kinds,
            vec![
                TokenKind::DocComment,
                TokenKind::Newline,
                TokenKind::Newline,
                TokenKind::Newline,
                TokenKind::Element,
                TokenKind::Identifier,
                TokenKind::Eof,
            ]
        );
        assert_eq!(tokens[0].text, "## about a");
    }

    #[test]
    fn multibyte_characters_count_bytes_in_offsets() {
        let source = "'é' x";
        let mut lexer = Lexer::new(source);
        let tokens = lexer.tokenize();
        assert_eq!(tokens[0].kind, TokenKind::StringSingle);
        assert_eq!(tokens[0].span.end.offset, 4);
        assert_eq!(tokens[1].kind, TokenKind::Identifier);
        assert_eq!(tokens[1].span.start.offset, 5);
        assert_eq!(tokens[1].span.start.column, 6);
    }
