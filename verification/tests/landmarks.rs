use theremin::landmarks::parse_args;

fn words(line: &[&str]) -> Vec<String> {
    line.iter().map(|word| word.to_string()).collect()
}

#[test]
fn model_and_image_are_enough() {
    let parsed = parse_args(&words(&["tool", "hand.tflite", "hand.jpg"]));
    assert_eq!(parsed, Ok((String::from("hand.tflite"), String::from("hand.jpg"), None)));
}

#[test]
fn an_output_path_may_follow() {
    let parsed = parse_args(&words(&["tool", "hand.tflite", "hand.jpg", "out.png"]));
    assert_eq!(
        parsed,
        Ok((String::from("hand.tflite"), String::from("hand.jpg"), Some(String::from("out.png"))))
    );
}

#[test]
fn too_few_arguments_get_the_usage_line() {
    let usage = String::from("Usage: tool <model_path> <image_path> [output_image_path]");
    assert_eq!(parse_args(&words(&["tool"])), Err(usage.clone()));
    assert_eq!(parse_args(&words(&["tool", "hand.tflite"])), Err(usage));
}

#[test]
fn too_many_arguments_get_the_usage_line() {
    let parsed = parse_args(&words(&["./bin/landmarks", "a", "b", "c", "d"]));
    assert_eq!(
        parsed,
        Err(String::from("Usage: ./bin/landmarks <model_path> <image_path> [output_image_path]"))
    );
}
