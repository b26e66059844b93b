# interview_copilot

A live interview assistant: it captures the microphone and the system audio,
detects speech turns, streams them to a transcription service, keeps a
transcript, and answers the interviewer's questions with a language model
grounded in the candidate's background.

- `src/` is the verified library (Verus): turn detection state, turn ordering,
  transcript assembly from service messages, prompt and request building,
  conversation history, the background store, the connection supervisor's and
  the overlay's small decisions, and the text helpers they share.
- `app/` is the program around it: audio capture, resampling and
  normalisation, the speech model, network clients, files and the overlay UI.
- `tests/` exercises the library on concrete values.
