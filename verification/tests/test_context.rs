use ragent::agent_context::AgentContext;
use ragent::context::extract_item_text;
use ragent::item::{assistant_message, user_message, ContentPart, Item, MessageRole};

fn system_message(text: &str) -> Item {
    Item::Message {
        id: None,
        status: None,
        role: MessageRole::System,
        content: vec![ContentPart::InputText { text: text.to_string() }],
        phase: None,
    }
}

#[test]
fn context_keeps_complete_history() {
    let mut context = AgentContext::from_existing(vec![system_message("old system")], None);
    for index in 1..=6 {
        context.add_user_message(format!("message {index}"));
    }
    assert_eq!(context.items().len(), 6);
    assert_eq!(context.system_prompt(), Some("old system"));
}

#[test]
fn context_never_holds_system_messages() {
    let mut context = AgentContext::new(Some("prompt".to_string()));
    assert!(context.is_empty());
    assert!(!context.has_user_input());
    context.add_item(system_message("ignored"));
    assert!(context.is_empty());
    context.add_item(user_message("hi".to_string()));
    context.add_items(vec![
        system_message("also ignored"),
        assistant_message("hello".to_string()),
    ]);
    let texts: Vec<String> = context.items().iter().map(extract_item_text).collect();
    assert_eq!(texts, vec!["hi".to_string(), "hello".to_string()]);
    assert!(context.has_user_input());
    assert_eq!(context.system_prompt(), Some("prompt"));

    context.replace_items(vec![system_message("x"), user_message("only".to_string())]);
    assert_eq!(context.to_items().len(), 1);
    assert_eq!(extract_item_text(&context.to_items()[0]), "only");

    context.clear_history();
    assert!(context.is_empty());
    assert_eq!(context.system_prompt(), Some("prompt"));
}

#[test]
fn resumed_context_prefers_the_given_prompt_and_the_first_system_message() {
    let items = vec![
        user_message("a".to_string()),
        system_message("first"),
        system_message("second"),
    ];
    let c = AgentContext::from_existing(items, None);
    assert_eq!(c.system_prompt(), Some("first"));
    assert_eq!(c.items().len(), 1);

    let c = AgentContext::from_existing(vec![system_message("stored")], Some("given".to_string()));
    assert_eq!(c.system_prompt(), Some("given"));
    assert!(c.is_empty());

    let c = AgentContext::from_existing(vec![user_message("u".to_string())], None);
    assert_eq!(c.system_prompt(), None);
}
